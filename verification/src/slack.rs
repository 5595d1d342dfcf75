//! Composition of rollout notification messages: the structured payload
//! a chat sink receives. Everything here is pure; delivering the payload
//! is a collaborator's job and must not block the orchestrator.
use vstd::prelude::*;

use crate::ext::{semver_check, semver_valid};
use crate::structs::Metadata;

verus! {

/// Message options for one rollout notification.
#[derive(Clone, Debug)]
pub struct Message {
    /// Text in the message.
    pub text: String,
    /// Metadata from the manifest.
    pub metadata: Option<Metadata>,
    /// Set when not wanting to notify people.
    pub quiet: bool,
    /// Replacement link overriding the inferred one.
    pub link: Option<String>,
    /// Optional colour for the attachment.
    pub color: Option<String>,
    /// Optional code diff to attach.
    pub code: Option<String>,
    /// Optional version to link when no code diff is at hand.
    pub version: Option<String>,
}

/// What stops a message from being composed or sent.
#[derive(Clone, Copy, Debug, PartialEq, Eq, Structural)]
pub enum SlackError {
    /// No webhook URL was configured.
    MissingSlackUrl,
    /// No channel was configured.
    MissingSlackChannel,
    /// A replacement link not in the form `url|description`.
    InvalidLink,
}

/// One piece of attachment text.
#[derive(Clone, Debug)]
pub enum TextContent {
    /// Plain words.
    Plain(String),
    /// A link: address, then display text.
    Link(String, String),
    /// A mention of a person by handle.
    User(String),
}

/// One attachment: fallback text, optional colour, and the text pieces.
#[derive(Clone, Debug)]
pub struct Attachment {
    pub fallback: String,
    pub color: Option<String>,
    pub texts: Vec<TextContent>,
}

/// The structured payload handed to the chat sink.
#[derive(Clone, Debug)]
pub struct SlackPayload {
    pub channel: String,
    pub username: String,
    pub icon_emoji: String,
    pub attachments: Vec<Attachment>,
}

/// Basic check that chat credentials are present, used before upgrades
/// so there is a trail: the channel is demanded first, then the hook
/// URL.
pub fn have_credentials(channel: &Option<String>, hook_url: &Option<String>) -> (r: Result<
    (),
    SlackError,
>)
    ensures
        r is Ok <==> (channel is Some && hook_url is Some),
        channel is None ==> r == Result::<(), SlackError>::Err(SlackError::MissingSlackChannel),
        channel is Some && hook_url is None ==> r == Result::<(), SlackError>::Err(
            SlackError::MissingSlackUrl,
        ),
{
    if channel.is_none() {
        return Err(SlackError::MissingSlackChannel);
    }
    if hook_url.is_none() {
        return Err(SlackError::MissingSlackUrl);
    }
    Ok(())
}

/// A shortened version string: a 40-character non-semver string (a git
/// object name) is cut to its first 8 characters, anything else is kept
/// whole.
pub open spec fn short_ver_view(v: Seq<char>) -> Seq<char> {
    if !semver_valid(v) && v.len() == 40 {
        v.subrange(0, 8)
    } else {
        v
    }
}

/// Shortens a version string for display.
pub fn short_ver(ver: &String) -> (r: String)
    ensures
        r@ == short_ver_view(ver@),
{
    if !semver_check(ver) && ver.as_str().unicode_len() == 40 {
        let cut = ver.as_str().substring_char(0, 8);
        cut.to_owned()
    } else {
        ver.clone()
    }
}

/// The link naming a single version: a release tag for a semantic
/// version, a commit link otherwise, displayed shortened.
pub fn infer_metadata_single_link(md: &Metadata, ver: &String) -> (r: TextContent)
    ensures
        r matches TextContent::Link(u, t) && u@ == (if semver_valid(ver@) {
            md.repo@ + "/releases/tag/"@ + ver@
        } else {
            md.repo@ + "/commit/"@ + ver@
        }) && t@ == short_ver_view(ver@),
{
    let url = if semver_check(ver) {
        md.repo.clone().concat("/releases/tag/").concat(ver.as_str())
    } else {
        md.repo.clone().concat("/commit/").concat(ver.as_str())
    };
    TextContent::Link(url, short_ver(ver))
}

/// The link comparing two versions of a service's repository, displayed
/// as the shortened new version.
pub fn create_github_compare_url(md: &Metadata, v0: &String, v1: &String) -> (r: TextContent)
    ensures
        r matches TextContent::Link(u, t) && u@ == md.repo@ + "/compare/"@ + v0@ + "..."@ + v1@
            && t@ == short_ver_view(v1@),
{
    let url = md.repo.clone().concat("/compare/").concat(v0.as_str()).concat("...").concat(
        v1.as_str(),
    );
    TextContent::Link(url, short_ver(v1))
}

/// The people to mention on a rollout: one mention per declared contact,
/// in order.
pub fn infer_slack_notifies(md: &Metadata) -> (r: Vec<TextContent>)
    ensures
        r@.len() == md.contacts@.len(),
        forall|i: int|
            0 <= i < r@.len() ==> ((#[trigger] r@[i]) matches TextContent::User(u) && u@
                == md.contacts@[i].slack@),
{
    let mut out: Vec<TextContent> = Vec::new();
    let mut i: usize = 0;
    while i < md.contacts.len()
        invariant
            i <= md.contacts.len(),
            out@.len() == i,
            forall|j: int|
                0 <= j < i ==> ((#[trigger] out@[j]) matches TextContent::User(u) && u@
                    == md.contacts@[j].slack@),
        decreases md.contacts.len() - i,
    {
        out.push(TextContent::User(md.contacts[i].slack.clone()));
        i += 1;
    }
    out
}

/// The originator of a message, inferred from the build environment:
/// the build-system link when a continuous-integration build is running,
/// else the invoking user, else an anonymous note.
pub fn infer_ci_links(
    jenkins: &Option<(String, String, String)>,
    circle: &Option<(String, String, String)>,
    user: &Option<String>,
) -> (r: TextContent)
    ensures
        match jenkins {
            Some(b) => r matches TextContent::Link(u, t) && u@ == b.0@ && t@ == b.1@ + "#"@
                + b.2@,
            None => match circle {
                Some(b) => r matches TextContent::Link(u, t) && u@ == b.0@ && t@ == b.1@ + "#"@
                    + b.2@,
                None => match user {
                    Some(n) => r matches TextContent::Plain(t) && t@ == "(via "@ + n@ + ")"@,
                    None => r matches TextContent::Plain(t) && t@ == "via unknown user"@,
                },
            },
        },
{
    match jenkins {
        Some((url, name, nr)) => TextContent::Link(
            url.clone(),
            name.clone().concat("#").concat(nr.as_str()),
        ),
        None => match circle {
            Some((url, name, nr)) => TextContent::Link(
                url.clone(),
                name.clone().concat("#").concat(nr.as_str()),
            ),
            None => match user {
                Some(n) => TextContent::Plain(
                    String::from_str("(via ").concat(n.as_str()).concat(")"),
                ),
                None => TextContent::Plain("via unknown user".to_owned()),
            },
        },
    }
}

/// How many times a character occurs in a string.
pub open spec fn count_char(s: Seq<char>, c: char) -> int
    decreases s.len(),
{
    if s.len() == 0 {
        0
    } else {
        count_char(s.drop_last(), c) + if s.last() == c {
            1int
        } else {
            0int
        }
    }
}

/// Splits a replacement link on its separator: `url|description` gives
/// the pair, a bare link doubles as its own description, and more than
/// one separator is malformed.
pub fn split_link(l: &String) -> (r: Result<(String, String), SlackError>)
    ensures
        count_char(l@, '|') >= 2 <==> r is Err,
        r matches Err(e) ==> e == SlackError::InvalidLink,
        r matches Ok(p) ==> (if count_char(l@, '|') == 1 {
            exists|k: int|
                0 <= k < l@.len() && l@[k] == '|' && p.0@ == l@.subrange(0, k) && p.1@
                    == l@.subrange(k + 1, l@.len() as int)
        } else {
            p.0@ == l@ && p.1@ == l@
        }),
{
    let n = l.as_str().unicode_len();
    let mut count: usize = 0;
    let mut first: usize = 0;
    let mut i: usize = 0;
    while i < n
        invariant
            n == l@.len(),
            i <= n,
            count == count_char(l@.take(i as int), '|'),
            count <= i,
            count >= 1 ==> (first < i && l@[first as int] == '|' && count_char(
                l@.take(first as int),
                '|',
            ) == 0),
        decreases n - i,
    {
        proof {
            assert(l@.take(i + 1).drop_last() =~= l@.take(i as int));
            assert(l@.take(i + 1).last() == l@[i as int]);
        }
        if l.as_str().get_char(i) == '|' {
            if count == 0 {
                first = i;
            }
            count += 1;
        }
        i += 1;
    }
    assert(l@.take(n as int) =~= l@);
    if count >= 2 {
        return Err(SlackError::InvalidLink);
    }
    if count == 1 {
        let addr = l.as_str().substring_char(0, first).to_owned();
        let desc = l.as_str().substring_char(first + 1, n).to_owned();
        proof {
            assert(l@.subrange(0, first as int) =~= l@.take(first as int));
        }
        Ok((addr, desc))
    } else {
        Ok((l.clone(), l.clone()))
    }
}

/// Composes the full structured payload for one rollout notification.
///
/// The first attachment carries the message text, the version or compare
/// link when one can be made, the replacement or inferred originator
/// link, and the contact mentions unless the message is quiet. A code
/// diff that is more than a pure version change becomes a second
/// attachment. A malformed replacement link is refused.
pub fn compose_message(
    msg: Message,
    channel: String,
    username: String,
    version_diff: &Option<(String, String)>,
    diff_is_version_only: bool,
    jenkins: &Option<(String, String, String)>,
    circle: &Option<(String, String, String)>,
    user: &Option<String>,
) -> (r: Result<SlackPayload, SlackError>)
    ensures
        (match msg.link {
            Some(l) => count_char(l@, '|') >= 2,
            None => false,
        }) <==> r is Err,
        r matches Err(e) ==> e == SlackError::InvalidLink,
        r matches Ok(p) ==> {
            &&& p.channel@ == channel@
            &&& p.username@ == username@
            &&& p.icon_emoji@ == ":ship:"@
            &&& (p.attachments@.len() == 2 <==> (msg.code is Some && !(version_diff is Some
                && diff_is_version_only)))
            &&& (p.attachments@.len() == 1 || p.attachments@.len() == 2)
            &&& p.attachments@[0].fallback@ == msg.text@
            &&& (match (p.attachments@[0].color, msg.color) {
                (Some(a), Some(b)) => a@ == b@,
                (None, None) => true,
                _ => false,
            })
            &&& p.attachments@[0].texts@.len() >= 1
            &&& (p.attachments@[0].texts@[0] matches TextContent::Plain(t) && t@ == msg.text@)
            &&& (p.attachments@.len() == 2 ==> ((msg.code matches Some(c)
                && p.attachments@[1].fallback@ == c@) && (p.attachments@[1].color matches Some(
                col,
            ) && col@ == "#439FE0"@)))
        },
{
    let mut texts: Vec<TextContent> = Vec::new();
    texts.push(TextContent::Plain(msg.text.clone()));
    let mut second: Option<Attachment> = None;
    match (&msg.code, version_diff) {
        (Some(diff), Some((v0, v1))) => {
            match &msg.metadata {
                Some(md) => {
                    texts.push(create_github_compare_url(md, v0, v1));
                },
                None => {},
            }
            if !diff_is_version_only {
                let mut dtexts: Vec<TextContent> = Vec::new();
                dtexts.push(TextContent::Plain(diff.clone()));
                second = Some(
                    Attachment {
                        fallback: diff.clone(),
                        color: Some("#439FE0".to_owned()),
                        texts: dtexts,
                    },
                );
            }
        },
        (Some(diff), None) => {
            let mut dtexts: Vec<TextContent> = Vec::new();
            dtexts.push(TextContent::Plain(diff.clone()));
            second = Some(
                Attachment {
                    fallback: diff.clone(),
                    color: Some("#439FE0".to_owned()),
                    texts: dtexts,
                },
            );
        },
        (None, _) => {
            match (&msg.version, &msg.metadata) {
                (Some(v), Some(md)) => {
                    texts.push(infer_metadata_single_link(md, v));
                },
                _ => {},
            }
        },
    }
    match &msg.link {
        Some(l) => {
            match split_link(l) {
                Ok((addr, desc)) => {
                    texts.push(TextContent::Link(addr, desc));
                },
                Err(e) => {
                    return Err(e);
                },
            }
        },
        None => {
            texts.push(infer_ci_links(jenkins, circle, user));
        },
    }
    match &msg.metadata {
        Some(md) => {
            if !msg.quiet {
                texts.push(TextContent::Plain("<- ".to_owned()));
                let mut ccs = infer_slack_notifies(md);
                texts.append(&mut ccs);
            }
        },
        None => {},
    }
    let color = match &msg.color {
        Some(c) => Some(c.clone()),
        None => None,
    };
    let first = Attachment { fallback: msg.text.clone(), color, texts };
    let mut attachments: Vec<Attachment> = Vec::new();
    attachments.push(first);
    match second {
        Some(a) => {
            attachments.push(a);
        },
        None => {},
    }
    Ok(
        SlackPayload {
            channel,
            username,
            icon_emoji: ":ship:".to_owned(),
            attachments,
        },
    )
}

} // verus!
