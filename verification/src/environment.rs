//! The settings of the program, as the environment and the credentials file
//! give them.

use vstd::prelude::*;

use crate::config::OciConfig;
use crate::flow::concat;
use crate::json::number_tree;
use crate::provision::{Job, JobView};
use crate::settings::{
    env_bool, env_i64, env_str, expand_home, home_expanded, law_home_stands_for_the_tilde,
    law_number_settings_are_taken, law_other_numbers_are_ignored, law_switches_are_on_for_true,
    number_setting, opt_view, switch_setting, text_setting,
};
use crate::text::{signed_decimal, trim, trimmed};

verus! {

/// The variables that the program reads; those that are not set are missing.
pub struct Environment {
    pub display_name: Option<String>,
    pub ssh_key_file: Option<String>,
    pub boot_volume_size_gb: Option<String>,
    pub os_name: Option<String>,
    pub os_version: Option<String>,
    pub assign_public_ip: Option<String>,
    pub initial_backoff: Option<String>,
    pub max_backoff: Option<String>,
    pub max_retries: Option<String>,
    pub discord_webhook_url: Option<String>,
    pub dry_run: Option<String>,
    pub vcn_cidr: Option<String>,
    pub subnet_cidr: Option<String>,
    pub compartment_id: Option<String>,
    pub oci_config_file: Option<String>,
    pub user_profile: Option<String>,
    pub home: Option<String>,
}

/// The variables that the program reads.
pub struct EnvironmentView {
    pub display_name: Option<Seq<char>>,
    pub ssh_key_file: Option<Seq<char>>,
    pub boot_volume_size_gb: Option<Seq<char>>,
    pub os_name: Option<Seq<char>>,
    pub os_version: Option<Seq<char>>,
    pub assign_public_ip: Option<Seq<char>>,
    pub initial_backoff: Option<Seq<char>>,
    pub max_backoff: Option<Seq<char>>,
    pub max_retries: Option<Seq<char>>,
    pub discord_webhook_url: Option<Seq<char>>,
    pub dry_run: Option<Seq<char>>,
    pub vcn_cidr: Option<Seq<char>>,
    pub subnet_cidr: Option<Seq<char>>,
    pub compartment_id: Option<Seq<char>>,
    pub oci_config_file: Option<Seq<char>>,
    pub user_profile: Option<Seq<char>>,
    pub home: Option<Seq<char>>,
}

impl View for Environment {
    type V = EnvironmentView;

    open spec fn view(&self) -> EnvironmentView {
        EnvironmentView {
            display_name: opt_view(self.display_name),
            ssh_key_file: opt_view(self.ssh_key_file),
            boot_volume_size_gb: opt_view(self.boot_volume_size_gb),
            os_name: opt_view(self.os_name),
            os_version: opt_view(self.os_version),
            assign_public_ip: opt_view(self.assign_public_ip),
            initial_backoff: opt_view(self.initial_backoff),
            max_backoff: opt_view(self.max_backoff),
            max_retries: opt_view(self.max_retries),
            discord_webhook_url: opt_view(self.discord_webhook_url),
            dry_run: opt_view(self.dry_run),
            vcn_cidr: opt_view(self.vcn_cidr),
            subnet_cidr: opt_view(self.subnet_cidr),
            compartment_id: opt_view(self.compartment_id),
            oci_config_file: opt_view(self.oci_config_file),
            user_profile: opt_view(self.user_profile),
            home: opt_view(self.home),
        }
    }
}

/// The settings of the program.
pub struct Settings {
    pub display_name: String,
    pub ssh_key_file: String,
    pub boot_volume_gb: i64,
    pub os_name: String,
    pub os_version: String,
    pub assign_public_ip: bool,
    pub initial_backoff: i64,
    pub max_backoff: i64,
    pub max_retries: i64,
    pub discord_webhook: String,
    pub dry_run: bool,
    pub vcn_cidr: String,
    pub subnet_cidr: String,
    /// The compartment; the root of the tenancy where it is empty.
    pub compartment_id: String,
    pub config_file: String,
}

/// The settings of the program.
pub struct SettingsView {
    pub display_name: Seq<char>,
    pub ssh_key_file: Seq<char>,
    pub boot_volume_gb: int,
    pub os_name: Seq<char>,
    pub os_version: Seq<char>,
    pub assign_public_ip: bool,
    pub initial_backoff: int,
    pub max_backoff: int,
    pub max_retries: int,
    pub discord_webhook: Seq<char>,
    pub dry_run: bool,
    pub vcn_cidr: Seq<char>,
    pub subnet_cidr: Seq<char>,
    pub compartment_id: Seq<char>,
    pub config_file: Seq<char>,
}

impl View for Settings {
    type V = SettingsView;

    open spec fn view(&self) -> SettingsView {
        SettingsView {
            display_name: self.display_name@,
            ssh_key_file: self.ssh_key_file@,
            boot_volume_gb: self.boot_volume_gb as int,
            os_name: self.os_name@,
            os_version: self.os_version@,
            assign_public_ip: self.assign_public_ip,
            initial_backoff: self.initial_backoff as int,
            max_backoff: self.max_backoff as int,
            max_retries: self.max_retries as int,
            discord_webhook: self.discord_webhook@,
            dry_run: self.dry_run,
            vcn_cidr: self.vcn_cidr@,
            subnet_cidr: self.subnet_cidr@,
            compartment_id: self.compartment_id@,
            config_file: self.config_file@,
        }
    }
}

/// The least size of a boot volume, in gigabytes.
pub const MIN_BOOT_VOLUME_GB: i64 = 50;

/// The size of a boot volume, which is not below the least.
pub open spec fn boot_volume(wanted: int) -> int {
    if wanted < MIN_BOOT_VOLUME_GB {
        MIN_BOOT_VOLUME_GB as int
    } else {
        wanted
    }
}

impl EnvironmentView {
    /// The home directory.
    pub open spec fn home_directory(self) -> Seq<char> {
        match self.user_profile {
            Some(path) => path,
            None => text_setting(self.home, ""@),
        }
    }

    /// A file name, where a leading `~` stands for the home directory.
    pub open spec fn file(self, value: Option<Seq<char>>, default: Seq<char>) -> Seq<char> {
        home_expanded(text_setting(value, default), self.home_directory())
    }

    /// The settings that these variables give.
    pub open spec fn settings(self) -> SettingsView {
        SettingsView {
            display_name: text_setting(self.display_name, "free-arm"@),
            ssh_key_file: self.file(self.ssh_key_file, "~/.ssh/id_rsa"@),
            boot_volume_gb: boot_volume(number_setting(self.boot_volume_size_gb, 50)),
            os_name: text_setting(self.os_name, "Canonical Ubuntu"@),
            os_version: text_setting(self.os_version, "22.04"@),
            assign_public_ip: switch_setting(self.assign_public_ip, true),
            initial_backoff: number_setting(self.initial_backoff, 30),
            max_backoff: number_setting(self.max_backoff, 300),
            max_retries: number_setting(self.max_retries, 0),
            discord_webhook: text_setting(self.discord_webhook_url, ""@),
            dry_run: switch_setting(self.dry_run, false),
            vcn_cidr: text_setting(self.vcn_cidr, "10.0.0.0/16"@),
            subnet_cidr: text_setting(self.subnet_cidr, "10.0.0.0/24"@),
            compartment_id: trim(text_setting(self.compartment_id, ""@)),
            config_file: self.file(self.oci_config_file, "~/.oci/config"@),
        }
    }
}

impl Environment {
    /// The settings that these variables give.
    pub fn read(self) -> (settings: Settings)
        ensures
            settings@ == self@.settings(),
    {
        let home: String = match self.user_profile {
            Some(path) => path,
            None => env_str(self.home, ""),
        };
        let ssh_key_file: String = env_str(self.ssh_key_file, "~/.ssh/id_rsa");
        let config_file: String = env_str(self.oci_config_file, "~/.oci/config");
        let boot_volume_gb: i64 = env_i64(self.boot_volume_size_gb, 50);
        let compartment_id: String = env_str(self.compartment_id, "");
        Settings {
            display_name: env_str(self.display_name, "free-arm"),
            ssh_key_file: expand_home(ssh_key_file.as_str(), home.as_str()),
            boot_volume_gb: if boot_volume_gb < MIN_BOOT_VOLUME_GB {
                MIN_BOOT_VOLUME_GB
            } else {
                boot_volume_gb
            },
            os_name: env_str(self.os_name, "Canonical Ubuntu"),
            os_version: env_str(self.os_version, "22.04"),
            assign_public_ip: env_bool(self.assign_public_ip, true),
            initial_backoff: env_i64(self.initial_backoff, 30),
            max_backoff: env_i64(self.max_backoff, 300),
            max_retries: env_i64(self.max_retries, 0),
            discord_webhook: env_str(self.discord_webhook_url, ""),
            dry_run: env_bool(self.dry_run, false),
            vcn_cidr: env_str(self.vcn_cidr, "10.0.0.0/16"),
            subnet_cidr: env_str(self.subnet_cidr, "10.0.0.0/24"),
            compartment_id: trimmed(compartment_id.as_str()),
            config_file: expand_home(config_file.as_str(), home.as_str()),
        }
    }
}

/// The host of a service in a region.
pub open spec fn service_host(service: Seq<char>, region: Seq<char>) -> Seq<char> {
    service + "."@ + region + ".oraclecloud.com"@
}

fn host_of(service: &str, region: &str) -> (host: String)
    ensures
        host@ == service_host(service@, region@),
{
    let mut host: String = concat(service, ".");
    host.append(region);
    host.append(".oraclecloud.com");
    host
}

impl SettingsView {
    /// The compartment that is worked in.
    pub open spec fn compartment(self, tenancy: Seq<char>) -> Seq<char> {
        if self.compartment_id.len() == 0 {
            tenancy
        } else {
            self.compartment_id
        }
    }

    /// Whether a job is the one that these settings ask for, with the given
    /// credentials and key.
    pub open spec fn wants(
        self,
        job: JobView,
        tenancy: Seq<char>,
        region: Seq<char>,
        ssh_pub_key: Seq<char>,
    ) -> bool {
        &&& job.identity_host == service_host("identity"@, region)
        &&& job.iaas_host == service_host("iaas"@, region)
        &&& job.compartment == self.compartment(tenancy)
        &&& job.display_name == self.display_name
        &&& job.os_name == self.os_name
        &&& job.os_version == self.os_version
        &&& job.vcn_cidr == self.vcn_cidr
        &&& job.subnet_cidr == self.subnet_cidr
        &&& job.ssh_pub_key == ssh_pub_key
        &&& job.boot_volume_gb == self.boot_volume_gb
        &&& job.assign_public_ip == self.assign_public_ip
        &&& job.initial_backoff == self.initial_backoff
        &&& job.max_backoff == self.max_backoff
        &&& job.max_retries == self.max_retries
        &&& job.dry_run == self.dry_run
    }
}

impl Settings {
    /// The compartment that is worked in.
    pub fn compartment(&self, tenancy: &str) -> (compartment: String)
        ensures
            compartment@ == self@.compartment(tenancy@),
    {
        if self.compartment_id.as_str().is_empty() {
            tenancy.to_owned()
        } else {
            self.compartment_id.clone()
        }
    }

    /// The job that these settings ask for.
    pub fn job(
        &self,
        config: &OciConfig,
        ssh_pub_key: &str,
        ocpus: Option<serde_json::Number>,
        memory_gb: Option<serde_json::Number>,
    ) -> (job: Job)
        ensures
            self@.wants(job@, config.tenancy@, config.region@, ssh_pub_key@),
            job@.ocpus == number_tree(ocpus),
            job@.memory_gb == number_tree(memory_gb),
    {
        Job {
            identity_host: host_of("identity", config.region.as_str()),
            iaas_host: host_of("iaas", config.region.as_str()),
            compartment: self.compartment(config.tenancy.as_str()),
            display_name: self.display_name.clone(),
            os_name: self.os_name.clone(),
            os_version: self.os_version.clone(),
            vcn_cidr: self.vcn_cidr.clone(),
            subnet_cidr: self.subnet_cidr.clone(),
            ssh_pub_key: ssh_pub_key.to_owned(),
            ocpus,
            memory_gb,
            boot_volume_gb: self.boot_volume_gb,
            assign_public_ip: self.assign_public_ip,
            initial_backoff: self.initial_backoff,
            max_backoff: self.max_backoff,
            max_retries: self.max_retries,
            dry_run: self.dry_run,
        }
    }
}

/// A boot volume is never smaller than the least, and of the wanted size where
/// that is not smaller.
pub proof fn law_boot_volume_is_large_enough(env: EnvironmentView)
    ensures
        env.settings().boot_volume_gb >= MIN_BOOT_VOLUME_GB,
        number_setting(env.boot_volume_size_gb, 50) >= MIN_BOOT_VOLUME_GB
            ==> env.settings().boot_volume_gb == number_setting(env.boot_volume_size_gb, 50),
{
}

/// A dry run is one that is asked for in so many words: where the variable is not
/// set or reads anything but `true`, it is none.
pub proof fn law_dry_run_is_asked_for(env: EnvironmentView)
    ensures
        env.settings().dry_run <==> env.dry_run is Some
            && crate::settings::equal_ignoring_case(env.dry_run->0, "true"@),
{
}

/// A variable that is set to a text is its setting as it is; a file is taken as it
/// is unless it starts with `~`; and the compartment is taken without white space
/// round it.
pub proof fn law_set_texts_are_taken(env: EnvironmentView, v: Seq<char>)
    ensures
        env.display_name == Some(v) ==> env.settings().display_name == v,
        env.os_name == Some(v) ==> env.settings().os_name == v,
        env.os_version == Some(v) ==> env.settings().os_version == v,
        env.discord_webhook_url == Some(v) ==> env.settings().discord_webhook == v,
        env.vcn_cidr == Some(v) ==> env.settings().vcn_cidr == v,
        env.subnet_cidr == Some(v) ==> env.settings().subnet_cidr == v,
        env.compartment_id == Some(v) ==> env.settings().compartment_id == trim(v),
        env.ssh_key_file == Some(v) && v.len() > 0 && v[0] != '~' ==> env.settings().ssh_key_file
            == v,
        env.oci_config_file == Some(v) && v.len() > 0 && v[0] != '~' ==> env.settings().config_file
            == v,
        env.ssh_key_file == Some(seq!['~', '/'] + v) ==> env.settings().ssh_key_file
            == env.home_directory() + seq!['/'] + v,
        env.oci_config_file == Some(seq!['~', '/'] + v) ==> env.settings().config_file
            == env.home_directory() + seq!['/'] + v,
{
    reveal_strlit("~");
    law_home_stands_for_the_tilde(v, v, env.home_directory());
}

/// A variable that is set to a number, in decimal, is its setting; only a boot
/// volume is at least of the least size.
pub proof fn law_set_numbers_are_taken(env: EnvironmentView, n: int)
    requires
        i64::MIN <= n <= i64::MAX,
    ensures
        ({
            let v = Some(signed_decimal(n));
            &&& env.initial_backoff == v ==> env.settings().initial_backoff == n
            &&& env.max_backoff == v ==> env.settings().max_backoff == n
            &&& env.max_retries == v ==> env.settings().max_retries == n
            &&& env.boot_volume_size_gb == v && n >= 50 ==> env.settings().boot_volume_gb == n
            &&& env.boot_volume_size_gb == v && n < 50 ==> env.settings().boot_volume_gb == 50
        }),
{
    law_number_settings_are_taken(n, 50);
    law_number_settings_are_taken(n, 30);
    law_number_settings_are_taken(n, 300);
    law_number_settings_are_taken(n, 0);
}

/// What is not set stands at its default, whatever else is set.
pub proof fn law_unset_variables_have_defaults(env: EnvironmentView)
    ensures
        env.display_name is None ==> env.settings().display_name == "free-arm"@,
        env.os_name is None ==> env.settings().os_name == "Canonical Ubuntu"@,
        env.os_version is None ==> env.settings().os_version == "22.04"@,
        env.boot_volume_size_gb is None ==> env.settings().boot_volume_gb == 50,
        env.assign_public_ip is None ==> env.settings().assign_public_ip,
        env.initial_backoff is None ==> env.settings().initial_backoff == 30,
        env.max_backoff is None ==> env.settings().max_backoff == 300,
        env.max_retries is None ==> env.settings().max_retries == 0,
        env.discord_webhook_url is None ==> env.settings().discord_webhook.len() == 0,
        env.dry_run is None ==> !env.settings().dry_run,
        env.compartment_id is None ==> env.settings().compartment_id.len() == 0,
        env.vcn_cidr is None ==> env.settings().vcn_cidr == "10.0.0.0/16"@,
        env.subnet_cidr is None ==> env.settings().subnet_cidr == "10.0.0.0/24"@,
        env.ssh_key_file is None ==> env.settings().ssh_key_file == env.home_directory()
            + "/.ssh/id_rsa"@,
        env.oci_config_file is None ==> env.settings().config_file == env.home_directory()
            + "/.oci/config"@,
{
    reveal_strlit("");
    reveal_strlit("/");
    reveal_strlit("~/.ssh/id_rsa");
    reveal_strlit("/.ssh/id_rsa");
    reveal_strlit("~/.oci/config");
    reveal_strlit("/.oci/config");
    assert(trim(""@) =~= Seq::empty());
    let home = env.home_directory();
    assert(home + "/"@ + "~/.ssh/id_rsa"@.skip(2) =~= home + "/.ssh/id_rsa"@);
    assert(home + "/"@ + "~/.oci/config"@.skip(2) =~= home + "/.oci/config"@);
}

/// The home directory is that of the user's profile, or else the one that `HOME`
/// names, or else nothing.
pub proof fn law_home_is_that_of_the_user(env: EnvironmentView, path: Seq<char>)
    ensures
        env.user_profile == Some(path) ==> env.home_directory() == path,
        env.user_profile is None && env.home == Some(path) ==> env.home_directory() == path,
        env.user_profile is None && env.home is None ==> env.home_directory().len() == 0,
{
    reveal_strlit("");
}

/// Switches are on where their variable reads `true` in any case, and off where it
/// reads anything else.
pub proof fn law_set_switches_are_taken(env: EnvironmentView, v: Seq<char>)
    ensures
        ({
            let on = v.len() == 4 && (v[0] == 't' || v[0] == 'T') && (v[1] == 'r' || v[1] == 'R')
                && (v[2] == 'u' || v[2] == 'U') && (v[3] == 'e' || v[3] == 'E');
            &&& env.assign_public_ip == Some(v) ==> env.settings().assign_public_ip == on
            &&& env.dry_run == Some(v) ==> env.settings().dry_run == on
        }),
{
    law_switches_are_on_for_true(v, true);
    law_switches_are_on_for_true(v, false);
}

/// A job is for the services of the region, in the compartment that is set or
/// else the root of the tenancy, and has every other setting as it is.
pub proof fn law_jobs_follow_the_settings(
    settings: SettingsView,
    job: JobView,
    tenancy: Seq<char>,
    region: Seq<char>,
    ssh_pub_key: Seq<char>,
)
    requires
        settings.wants(job, tenancy, region, ssh_pub_key),
    ensures
        job.identity_host == "identity"@ + "."@ + region + ".oraclecloud.com"@,
        job.iaas_host == "iaas"@ + "."@ + region + ".oraclecloud.com"@,
        settings.compartment_id.len() > 0 ==> job.compartment == settings.compartment_id,
        settings.compartment_id.len() == 0 ==> job.compartment == tenancy,
        job.display_name == settings.display_name,
        job.os_name == settings.os_name,
        job.os_version == settings.os_version,
        job.vcn_cidr == settings.vcn_cidr,
        job.subnet_cidr == settings.subnet_cidr,
        job.ssh_pub_key == ssh_pub_key,
        job.boot_volume_gb == settings.boot_volume_gb,
        job.assign_public_ip == settings.assign_public_ip,
        job.initial_backoff == settings.initial_backoff,
        job.max_backoff == settings.max_backoff,
        job.max_retries == settings.max_retries,
        job.dry_run == settings.dry_run,
{
}

/// A number variable that holds anything but digits and a sign leaves its setting
/// at the default.
pub proof fn law_other_texts_are_no_numbers(env: EnvironmentView, v: Seq<char>, i: int)
    requires
        0 < i < v.len() && !('0' <= v[i] <= '9') || v.len() == 0 || !('0' <= v[0] <= '9') && v[0]
            != '-' && v[0] != '+',
    ensures
        env.initial_backoff == Some(v) ==> env.settings().initial_backoff == 30,
        env.max_backoff == Some(v) ==> env.settings().max_backoff == 300,
        env.max_retries == Some(v) ==> env.settings().max_retries == 0,
        env.boot_volume_size_gb == Some(v) ==> env.settings().boot_volume_gb == 50,
{
    if v.len() == 0 {
        assert(v =~= Seq::empty());
    }
    law_other_numbers_are_ignored(v, 30, i);
    law_other_numbers_are_ignored(v, 300, i);
    law_other_numbers_are_ignored(v, 0, i);
    law_other_numbers_are_ignored(v, 50, i);
}

} // verus!
