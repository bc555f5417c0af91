# OCI Free Tier ARM provisioner

Launches an Oracle Cloud Always Free ARM instance (`VM.Standard.A1.Flex`) and
keeps trying, from one availability domain to the next, until there is room.

The logic is a Verus library under `src/`: every function is proved to do what
its `ensures` says. The program under `app/` does the rest: it reads the
environment and files, sends the requests, rests, and writes the log.

## Layout

| Module | What it holds |
|---|---|
| `text` | searching, trimming, splitting, writing numbers |
| `settings`, `environment` | variables, their defaults, and the job they ask for |
| `config` | the credentials file |
| `json` | JSON values, on top of `serde_json` |
| `crypto`, `signer` | base64, digests, RSA signatures, and the headers made of them |
| `request`, `error` | requests, answers, and which errors are worth another try |
| `flow` | work that takes several requests, one answer at a time |
| `network`, `network_setup` | finding a network with a public subnet, or making one |
| `resources` | availability domains, images, instances, addresses |
| `retry` | how long to rest between tries, and when to stop |
| `provision`, `course` | the whole way to an instance, and what holds of it |
| `report`, `notify` | what is told of the end, and how |
| `ssh` | the key that the instance lets in |

Work that needs the service is written as states: each takes an answer and says
what to ask next, so that what is proved holds whatever the service answers.
`course` states what holds of the way as a whole: a dry run launches nothing, an
instance that is there is kept, a region without room never ends the tries, and
rests stay between the first and the longest.

## Settings

| Variable | Default |
|---|---|
| `OCPUS` | `1` (at most 2) |
| `MEMORY_GB` | `12` (at most 12) |
| `DISPLAY_NAME` | `free-arm` |
| `OS_NAME` / `OS_VERSION` | `Canonical Ubuntu` / `22.04` |
| `BOOT_VOLUME_SIZE_GB` | `50` (at least 50) |
| `ASSIGN_PUBLIC_IP` | `true` |
| `INITIAL_BACKOFF` / `MAX_BACKOFF` | `30` / `300` seconds |
| `MAX_RETRIES` | `0`, for any number |
| `DISCORD_WEBHOOK_URL` | none |
| `DRY_RUN` | `false` |
| `COMPARTMENT_ID` | the root of the tenancy |
| `VCN_CIDR` / `SUBNET_CIDR` | `10.0.0.0/16` / `10.0.0.0/24` (only used when creating a new VCN; a subnet in one that was there before gets `10.0.0.0/24`) |
| `SSH_KEY_FILE` | `~/.ssh/id_rsa` |
| `OCI_CONFIG_FILE` | `~/.oci/config` |
