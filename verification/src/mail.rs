//! Importing e-mail: single messages (`.eml`, `.msg`) and mailbox
//! archives (`.mbox`) holding many messages.

use vstd::prelude::*;
use crate::clock::now_rfc3339;
use crate::html::created_timeline;
use crate::html::created_timeline_v;
use crate::importers::{EmlImporter, MboxImporter, MsgImporter};
use crate::model::{opt_view, plain_result, provenance, provenance_v, results_view, text_component, text_v, Component, ComponentType, ImportError, ImportResult, ResultV};
use crate::notes::notes_outcome;
use crate::paths::{file_stem_or, stem_or};
use crate::text::{
    concat, decimal, decimal_string, eq_ignore_case, split_on, split_ranges, string_of, to_chars,
    trim, trim_bounds,
};

verus! {

/// What `mailparse` makes of a message: its headers (key and decoded
/// value, in order) and the body of its first subpart, or an error message.
pub uninterp spec fn mail_parts(data: Seq<u8>) -> Result<(Seq<(Seq<char>, Seq<char>)>, Option<Seq<char>>), Seq<char>>;

/// The mathematical value of parsed mail parts.
pub open spec fn parts_view(r: Result<(Vec<(String, String)>, Option<String>), String>) -> Result<
    (Seq<(Seq<char>, Seq<char>)>, Option<Seq<char>>),
    Seq<char>,
> {
    match r {
        Ok(p) => Ok(
            (p.0@.map_values(|h: (String, String)| (h.0@, h.1@)), opt_view(p.1)),
        ),
        Err(e) => Err(e@),
    }
}

/// `mailparse::parse_mail`: each header's `get_key` and `get_value`, and
/// `get_body` of the first subpart. Claimed: the result is `mail_parts`
/// of `data`.
#[verifier::external_body]
fn parse_mail(data: &[u8]) -> (r: Result<(Vec<(String, String)>, Option<String>), String>)
    ensures
        parts_view(r) == mail_parts(data@),
{
    let parsed = mailparse::parse_mail(data).map_err(|e| e.to_string())?;
    let headers = parsed.headers.iter().map(|h| (h.get_key(), h.get_value())).collect();
    Ok((headers, parsed.subparts.first().and_then(|p| p.get_body().ok())))
}

/// The value of the first header whose key is `key`, ignoring ASCII case.
pub open spec fn header_value(headers: Seq<(Seq<char>, Seq<char>)>, key: Seq<char>) -> Option<Seq<char>>
    decreases headers.len(),
{
    if headers.len() == 0 {
        None
    } else {
        match header_value(headers.drop_last(), key) {
            Some(v) => Some(v),
            None => if eq_ignore_case(headers.last().0, key) {
                Some(headers.last().1)
            } else {
                None
            },
        }
    }
}

/// The e-mail entity of a parsed message: its subject (else `title`) as
/// title, its body (empty when none) as content, provenance in the given
/// format, its sender as author when it has one, and, when `dated`, its
/// `Date` header as creation time.
pub open spec fn mail_result(
    headers: Seq<(Seq<char>, Seq<char>)>,
    body: Option<Seq<char>>,
    title: Seq<char>,
    format: Seq<char>,
    dated: bool,
    source: Seq<char>,
    t: Seq<char>,
) -> ResultV {
    let base = seq![
        text_v(ComponentType::Title, match header_value(headers, "Subject"@) {
            Some(s) => s,
            None => title,
        }),
        text_v(ComponentType::Content, match body {
            Some(b) => b,
            None => Seq::empty(),
        }),
        provenance_v(source, t, format),
    ];
    let with_author = match header_value(headers, "From"@) {
        Some(f) => base.push(text_v(ComponentType::Author, f)),
        None => base,
    };
    ResultV {
        entity_type: "Email"@,
        components: if dated {
            match header_value(headers, "Date"@) {
                Some(d) => with_author.push(created_timeline_v(d, t)),
                None => with_author,
            }
        } else {
            with_author
        },
        cross_references: Seq::empty(),
    }
}

fn find_header(headers: &Vec<(String, String)>, key: &str) -> (r: Option<String>)
    ensures
        opt_view(r) == header_value(headers@.map_values(|h: (String, String)| (h.0@, h.1@)), key@),
{
    let ghost hv = headers@.map_values(|h: (String, String)| (h.0@, h.1@));
    let mut i: usize = 0;
    assert(hv.take(0) =~= Seq::<(Seq<char>, Seq<char>)>::empty());
    while i < headers.len()
        invariant
            i <= headers.len(),
            hv == headers@.map_values(|h: (String, String)| (h.0@, h.1@)),
            header_value(hv.take(i as int), key@) is None,
        decreases headers.len() - i,
    {
        proof {
            assert(hv.take(i + 1).drop_last() =~= hv.take(i as int));
            assert(hv.take(i + 1).last() == hv[i as int]);
        }
        if crate::paths::str_eq_ignore_case(headers[i].0.as_str(), key) {
            proof {
                lemma_header_prefix(hv, key@, i + 1);
            }
            return Some(headers[i].1.clone());
        }
        i += 1;
    }
    assert(hv.take(headers.len() as int) =~= hv);
    None
}

proof fn lemma_header_prefix(h: Seq<(Seq<char>, Seq<char>)>, key: Seq<char>, n: int)
    requires
        0 <= n <= h.len(),
        header_value(h.take(n), key) is Some,
    ensures
        header_value(h, key) == header_value(h.take(n), key),
    decreases h.len() - n,
{
    if n < h.len() {
        assert(h.take(n + 1).drop_last() =~= h.take(n));
        lemma_header_prefix(h, key, n + 1);
    } else {
        assert(h.take(n) =~= h);
    }
}

fn make_mail_result(
    headers: &Vec<(String, String)>,
    body: Option<String>,
    title: String,
    format: &str,
    dated: bool,
    source: &str,
    t: &str,
) -> (r: ImportResult)
    ensures
        r@ == mail_result(
            headers@.map_values(|h: (String, String)| (h.0@, h.1@)),
            opt_view(body),
            title@,
            format@,
            dated,
            source@,
            t@,
        ),
{
    let ghost hv = headers@.map_values(|h: (String, String)| (h.0@, h.1@));
    let ghost want = mail_result(hv, opt_view(body), title@, format@, dated, source@, t@);
    let subject = match find_header(headers, "Subject") {
        Some(s) => s,
        None => title,
    };
    let content = match body {
        Some(b) => b,
        None => String::new(),
    };
    let mut components: Vec<Component> = Vec::new();
    components.push(text_component(ComponentType::Title, subject));
    components.push(text_component(ComponentType::Content, content));
    components.push(provenance(source, t, format));
    match find_header(headers, "From") {
        Some(f) => components.push(text_component(ComponentType::Author, f)),
        None => {},
    }
    if dated {
        match find_header(headers, "Date") {
            Some(d) => components.push(created_timeline(d.as_str(), t)),
            None => {},
        }
    }
    let r = plain_result("Email", components);
    assert(r@.components =~= want.components);
    r
}

/// Whether a single-message import gave the wanted entity, or a parse
/// error with the wanted message.
pub open spec fn single_outcome(r: Result<ImportResult, ImportError>, want: Result<ResultV, Seq<char>>) -> bool {
    match want {
        Ok(v) => r matches Ok(x) && x@ == v,
        Err(m) => r matches Err(ImportError::Parse(e)) && e@ == m,
    }
}

/// The entity imported from the message file `data` at `source`, or the
/// parse error prefixed by `prefix`.
pub open spec fn message_import(
    data: Seq<u8>,
    prefix: Seq<char>,
    untitled: Seq<char>,
    format: Seq<char>,
    dated: bool,
    source: Seq<char>,
    t: Seq<char>,
) -> Result<ResultV, Seq<char>> {
    match mail_parts(data) {
        Err(e) => Err(prefix + e),
        Ok(p) => Ok(mail_result(p.0, p.1, stem_or(source, untitled), format, dated, source, t)),
    }
}

fn import_message(
    data: &[u8],
    prefix: &str,
    untitled: &str,
    format: &str,
    dated: bool,
    source: &str,
    t: &str,
) -> (r: Result<ImportResult, ImportError>)
    ensures
        single_outcome(r, message_import(data@, prefix@, untitled@, format@, dated, source@, t@)),
{
    match parse_mail(data) {
        Err(e) => Err(ImportError::Parse(concat(prefix, e.as_str()))),
        Ok((headers, body)) => {
            let title = file_stem_or(source, untitled);
            Ok(make_mail_result(&headers, body, title, format, dated, source, t))
        },
    }
}

impl EmlImporter {
    /// The e-mail in the `.eml` file `data` read from `source_path`,
    /// imported at `imported_at`: titled by its subject, else the file
    /// stem, else `Untitled Email`; dated by its `Date` header.
    pub fn import_at(&self, data: &[u8], source_path: &str, imported_at: &str) -> (r: Result<
        ImportResult,
        ImportError,
    >)
        ensures
            single_outcome(
                r,
                message_import(
                    data@,
                    "EML parse error: "@,
                    "Untitled Email"@,
                    "eml"@,
                    true,
                    source_path@,
                    imported_at@,
                ),
            ),
    {
        import_message(data, "EML parse error: ", "Untitled Email", "eml", true, source_path, imported_at)
    }

    /// The e-mail in the `.eml` file `data`, stamped with the current time.
    pub fn import(&self, data: &[u8], source_path: &str) -> (r: Result<ImportResult, ImportError>)
        ensures
            exists|t: Seq<char>|
                #[trigger] single_outcome(
                    r,
                    message_import(
                        data@,
                        "EML parse error: "@,
                        "Untitled Email"@,
                        "eml"@,
                        true,
                        source_path@,
                        t,
                    ),
                ),
    {
        let now = now_rfc3339();
        self.import_at(data, source_path, now.as_str())
    }
}

impl MsgImporter {
    /// The message in the `.msg` file `data` read from `source_path`,
    /// imported at `imported_at`: titled by its subject, else the file
    /// stem, else `Untitled Message`.
    pub fn import_at(&self, data: &[u8], source_path: &str, imported_at: &str) -> (r: Result<
        ImportResult,
        ImportError,
    >)
        ensures
            single_outcome(
                r,
                message_import(
                    data@,
                    "MSG parse error: "@,
                    "Untitled Message"@,
                    "msg"@,
                    false,
                    source_path@,
                    imported_at@,
                ),
            ),
    {
        import_message(data, "MSG parse error: ", "Untitled Message", "msg", false, source_path, imported_at)
    }

    /// The message in the `.msg` file `data`, stamped with the current time.
    pub fn import(&self, data: &[u8], source_path: &str) -> (r: Result<ImportResult, ImportError>)
        ensures
            exists|t: Seq<char>|
                #[trigger] single_outcome(
                    r,
                    message_import(
                        data@,
                        "MSG parse error: "@,
                        "Untitled Message"@,
                        "msg"@,
                        false,
                        source_path@,
                        t,
                    ),
                ),
    {
        let now = now_rfc3339();
        self.import_at(data, source_path, now.as_str())
    }
}

/// The messages of a mailbox: the pieces between `\nFrom ` separators
/// that are not blank.
pub open spec fn mbox_pieces(pieces: Seq<Seq<char>>) -> Seq<Seq<char>>
    decreases pieces.len(),
{
    if pieces.len() == 0 {
        Seq::empty()
    } else if trim(pieces.last()).len() > 0 {
        mbox_pieces(pieces.drop_last()).push(pieces.last())
    } else {
        mbox_pieces(pieces.drop_last())
    }
}

/// The text of message `k` of a mailbox as it is parsed: its `From `
/// line restored (for all but the first) and a final newline.
pub open spec fn message_text(piece: Seq<char>, k: nat) -> Seq<char> {
    if k == 0 {
        piece + "\n"@
    } else {
        "From "@ + piece + "\n"@
    }
}

/// The e-mails of the first messages `msgs` of a mailbox, or the parse
/// error of the first message that cannot be parsed.
pub open spec fn mbox_import_of(msgs: Seq<Seq<char>>, source: Seq<char>, t: Seq<char>) -> Result<Seq<ResultV>, Seq<char>>
    decreases msgs.len(),
{
    if msgs.len() == 0 {
        Ok(Seq::empty())
    } else {
        match mbox_import_of(msgs.drop_last(), source, t) {
            Err(e) => Err(e),
            Ok(prev) => {
                let k = (msgs.len() - 1) as nat;
                match mail_parts(vstd::utf8::encode_utf8(message_text(msgs.last(), k))) {
                    Err(e) => Err("mbox message parse error: "@ + e),
                    Ok(p) => Ok(
                        prev.push(
                            mail_result(p.0, p.1, "Message "@ + decimal(k + 1), "mbox"@, false, source, t),
                        ),
                    ),
                }
            },
        }
    }
}

/// The e-mails of a mailbox archive, one per message, or the parse error
/// of the first message that cannot be parsed.
pub open spec fn mbox_import(content: Seq<char>, source: Seq<char>, t: Seq<char>) -> Result<Seq<ResultV>, Seq<char>> {
    mbox_import_of(mbox_pieces(split_on(content, "\nFrom "@)), source, t)
}

proof fn lemma_mbox_stops(msgs: Seq<Seq<char>>, source: Seq<char>, t: Seq<char>, n: int)
    requires
        0 <= n <= msgs.len(),
        mbox_import_of(msgs.take(n), source, t) is Err,
    ensures
        mbox_import_of(msgs, source, t) == mbox_import_of(msgs.take(n), source, t),
    decreases msgs.len() - n,
{
    if n < msgs.len() {
        assert(msgs.take(n + 1).drop_last() =~= msgs.take(n));
        lemma_mbox_stops(msgs, source, t, n + 1);
    } else {
        assert(msgs.take(n) =~= msgs);
    }
}

/// The non-blank pieces of `content` between `\nFrom ` separators.
fn mbox_messages(content: &str) -> (r: Vec<String>)
    ensures
        r@.map_values(|x: String| x@) == mbox_pieces(split_on(content@, "\nFrom "@)),
{
    let v = to_chars(content);
    let sep = to_chars("\nFrom ");
    proof {
        reveal_strlit("\nFrom ");
    }
    let ranges = split_ranges(&v, &sep);
    let ghost pieces = ranges@.map_values(|x: (usize, usize)| v@.subrange(x.0 as int, x.1 as int));
    let mut r: Vec<String> = Vec::new();
    let mut i: usize = 0;
    assert(pieces.take(0) =~= Seq::<Seq<char>>::empty());
    while i < ranges.len()
        invariant
            i <= ranges.len(),
            pieces == ranges@.map_values(|x: (usize, usize)| v@.subrange(x.0 as int, x.1 as int)),
            forall|k: int| 0 <= k < ranges.len() ==> #[trigger] ranges@[k].0 <= ranges@[k].1 <= v.len(),
            r@.map_values(|x: String| x@) == mbox_pieces(pieces.take(i as int)),
        decreases ranges.len() - i,
    {
        let (lo, hi) = ranges[i];
        proof {
            assert(pieces.take(i + 1).drop_last() =~= pieces.take(i as int));
            assert(pieces.take(i + 1).last() == v@.subrange(lo as int, hi as int));
        }
        let (a, b) = trim_bounds(&v, lo, hi);
        if a < b {
            let ghost before = r@.map_values(|x: String| x@);
            r.push(string_of(&v, lo, hi));
            assert(r@.map_values(|x: String| x@) =~= before.push(v@.subrange(lo as int, hi as int)));
        }
        i += 1;
    }
    assert(pieces.take(ranges.len() as int) =~= pieces);
    r
}

impl MboxImporter {
    /// The e-mails of the mailbox `content` read from `source_path`,
    /// imported at `imported_at` (see `mbox_import`): each titled by its
    /// subject, else `Message <n>`.
    pub fn import_mbox_at(&self, content: &str, source_path: &str, imported_at: &str) -> (r: Result<
        Vec<ImportResult>,
        ImportError,
    >)
        ensures
            notes_outcome(r, mbox_import(content@, source_path@, imported_at@)),
    {
        let msgs = mbox_messages(content);
        let ghost mv = msgs@.map_values(|x: String| x@);
        let mut results: Vec<ImportResult> = Vec::new();
        let mut k: usize = 0;
        assert(mv.take(0) =~= Seq::<Seq<char>>::empty());
        assert(results_view(results@) =~= Seq::<ResultV>::empty());
        while k < msgs.len()
            invariant
                k <= msgs.len(),
                mv == msgs@.map_values(|x: String| x@),
                mv == mbox_pieces(split_on(content@, "\nFrom "@)),
                mbox_import_of(mv.take(k as int), source_path@, imported_at@) == Ok::<Seq<ResultV>, Seq<char>>(
                    results_view(results@),
                ),
            decreases msgs.len() - k,
        {
            proof {
                assert(mv.take(k + 1).drop_last() =~= mv.take(k as int));
                assert(mv.take(k + 1).last() == msgs@[k as int]@);
            }
            let text = if k == 0 {
                concat(msgs[k].as_str(), "\n")
            } else {
                let head = concat("From ", msgs[k].as_str());
                concat(head.as_str(), "\n")
            };
            match parse_mail(text.as_str().as_bytes()) {
                Err(e) => {
                    proof {
                        lemma_mbox_stops(mv, source_path@, imported_at@, k + 1);
                    }
                    return Err(ImportError::Parse(concat("mbox message parse error: ", e.as_str())));
                },
                Ok((headers, body)) => {
                    let n = decimal_string(k + 1);
                    let title = concat("Message ", n.as_str());
                    let res = make_mail_result(&headers, body, title, "mbox", false, source_path, imported_at);
                    let ghost before = results_view(results@);
                    results.push(res);
                    assert(results_view(results@) =~= before.push(res@));
                },
            }
            k += 1;
        }
        assert(mv.take(msgs.len() as int) =~= mv);
        Ok(results)
    }

    /// The e-mails of a mailbox, stamped with the current time.
    pub fn import_mbox(&self, content: &str, source_path: &str) -> (r: Result<Vec<ImportResult>, ImportError>)
        ensures
            exists|t: Seq<char>| #[trigger] notes_outcome(r, mbox_import(content@, source_path@, t)),
    {
        let now = now_rfc3339();
        self.import_mbox_at(content, source_path, now.as_str())
    }

    /// A mailbox holds many messages, so a single-entity import is refused.
    pub fn import(&self, path: &str) -> (r: Result<ImportResult, ImportError>)
        ensures
            r matches Err(ImportError::Parse(m)) && m@
                == "Mbox import creates multiple entities. Use import_mbox() for multi-entity import."@,
    {
        Err(
            ImportError::Parse(
                "Mbox import creates multiple entities. Use import_mbox() for multi-entity import.".to_string(),
            ),
        )
    }
}

} // verus!
