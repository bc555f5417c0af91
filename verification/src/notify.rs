//! Notices to a Discord channel.

use vstd::prelude::*;

use crate::flow::{concat, has_only};
use crate::json::{
    field, items_in, json_bytes, json_integer, json_text, no_fields, text_field, to_bytes, trees,
    Fields, Json, JsonTree,
};
use crate::text::{chars_of, signed_decimal, text_of};

verus! {

/// How many characters a notice may have.
pub const MAX_NOTICE: usize = 2048;

/// The colour of good news, as red, green and blue.
pub const GOOD_COLOR: i64 = 0x28a745;

/// The colour of other news, as red, green and blue.
pub const BAD_COLOR: i64 = 0xdc3545;

/// What is to be told.
#[derive(Debug, PartialEq)]
pub struct Notice {
    pub message: String,
    /// Whether it is good news.
    pub success: bool,
}

/// What is to be told.
pub struct NoticeView {
    pub message: Seq<char>,
    pub success: bool,
}

impl View for Notice {
    type V = NoticeView;

    open spec fn view(&self) -> NoticeView {
        NoticeView { message: self.message@, success: self.success }
    }
}

/// The first characters of `s`, up to as many as a notice may have.
pub open spec fn shortened(s: Seq<char>) -> Seq<char> {
    if s.len() > MAX_NOTICE {
        s.take(MAX_NOTICE as int)
    } else {
        s
    }
}

/// The message that the channel is sent.
pub open spec fn payload(message: Seq<char>, success: bool) -> JsonTree {
    let title = "OCI Free Tier ARM \u{2014} "@ + if success {
        "SUCCESS"@
    } else {
        "UPDATE"@
    };
    let color = if success {
        GOOD_COLOR
    } else {
        BAD_COLOR
    };
    let embed = JsonTree::Object(
        no_fields().insert("title"@, JsonTree::Text(title)).insert(
            "description"@,
            JsonTree::Text(shortened(message)),
        ).insert("color"@, JsonTree::Number(signed_decimal(color as int))),
    );
    JsonTree::Object(no_fields().insert("embeds"@, JsonTree::List(seq![embed])))
}

/// The message that the channel is sent.
pub fn payload_of(message: &str, success: bool) -> (j: Json)
    ensures
        j@ == payload(message@, success),
{
    let title: String = concat(
        "OCI Free Tier ARM \u{2014} ",
        if success {
            "SUCCESS"
        } else {
            "UPDATE"
        },
    );
    let color: i64 = if success {
        GOOD_COLOR
    } else {
        BAD_COLOR
    };
    let chars: Vec<char> = chars_of(message);
    let kept: usize = if chars.len() > MAX_NOTICE {
        MAX_NOTICE
    } else {
        chars.len()
    };
    let description: String = text_of(&chars, 0, kept);
    assert(description@ =~= shortened(message@));
    let embed: Json = Fields::new().with("title", json_text(title.as_str())).with(
        "description",
        json_text(description.as_str()),
    ).with("color", json_integer(color)).object();
    let mut embeds: Vec<Json> = Vec::new();
    embeds.push(embed);
    assert(trees(embeds@) =~= seq![embed@]);
    Fields::new().with("embeds", Json::List(embeds)).object()
}

/// What is posted to the channel at `webhook`: nothing where there is none.
pub fn notify(message: &str, success: bool, webhook: &str) -> (body: Option<Vec<u8>>)
    ensures
        body is Some <==> webhook@.len() > 0,
        body matches Some(bytes) ==> bytes@ == json_bytes(payload(message@, success)),
{
    if webhook.is_empty() {
        None
    } else {
        Some(to_bytes(payload_of(message, success)))
    }
}

/// A message of up to 2048 characters is told whole, and of a longer one the
/// first 2048 characters.
pub proof fn law_long_messages_are_cut(message: Seq<char>)
    ensures
        message.len() <= 2048 ==> shortened(message) == message,
        message.len() > 2048 ==> shortened(message).len() == 2048,
        forall|i: int|
            0 <= i < shortened(message).len() ==> #[trigger] shortened(message)[i] == message[i],
{
}

/// What the channel is sent is one embed, whose title says whether it is good
/// news, whose description is the message as far as there is room, and whose
/// colour is green or red; and nothing else.
pub proof fn law_payload_tells_the_message(message: Seq<char>, success: bool)
    ensures
        ({
            let sent = payload(message, success);
            let embeds = items_in(sent, "embeds"@);
            &&& has_only(sent, set!["embeds"@])
            &&& embeds.len() == 1
            &&& has_only(embeds[0], set!["title"@, "description"@, "color"@])
            &&& text_field(embeds[0], "title"@) == Some(
                "OCI Free Tier ARM \u{2014} "@ + if success {
                    "SUCCESS"@
                } else {
                    "UPDATE"@
                },
            )
            &&& text_field(embeds[0], "description"@) == Some(shortened(message))
            &&& field(embeds[0], "color"@) == Some(
                JsonTree::Number(
                    signed_decimal(
                        if success {
                            0x28a745
                        } else {
                            0xdc3545
                        },
                    ),
                ),
            )
        }),
{
    reveal_strlit("title");
    reveal_strlit("description");
    reveal_strlit("color");
    assert("title"@[0] != "color"@[0]);
    assert("description"@.len() == 11);
    assert("title"@.len() == 5);
    assert("color"@.len() == 5);
}

} // verus!
