//! What is read out of the bytes of a message: its headers, its text and
//! HTML bodies and its attachments. The message format itself is read by
//! the `mailparse` crate and HTML is made safe by the `ammonia` crate.

use crate::errors::{AppError, AppResult};
use crate::models::AttachmentInfo;
use crate::session::{fails, ErrorKind};
use crate::text::{
    ascii_lower, chars_of, concat2, eq_ignore_ascii_case, str_eq, str_eq_ignore_ascii_case,
    string_of, to_ascii_lowercase,
};
use vstd::prelude::*;

verus! {

// ---------------------------------------------------------------------------
// Truncation
// ---------------------------------------------------------------------------

/// The first `max_chars` characters of a text, or all of it if it has
/// fewer.
pub open spec fn truncated(s: Seq<char>, max_chars: usize) -> Seq<char> {
    if s.len() <= max_chars {
        s
    } else {
        s.take(max_chars as int)
    }
}

/// Cuts a text down to at most `max_chars` characters. Characters are never
/// split: the result is a prefix of the text, counted in characters.
pub fn truncate_chars(input: String, max_chars: usize) -> (r: String)
    ensures
        r@ == truncated(input@, max_chars),
        r@.len() == if input@.len() <= max_chars {
            input@.len()
        } else {
            max_chars as nat
        },
{
    let v = chars_of(input.as_str());
    if v.len() <= max_chars {
        input
    } else {
        string_of(&v, 0, max_chars)
    }
}

// ---------------------------------------------------------------------------
// Headers
// ---------------------------------------------------------------------------

/// The headers of `headers`, as pairs of texts.
pub open spec fn header_views(headers: Seq<(String, String)>) -> Seq<(Seq<char>, Seq<char>)> {
    Seq::new(headers.len(), |i: int| (headers[i].0@, headers[i].1@))
}

/// The headers that are shown unless all are asked for.
pub open spec fn curated_name(name: Seq<char>) -> bool {
    let n = ascii_lower(name);
    n == "date"@ || n == "from"@ || n == "to"@ || n == "cc"@ || n == "subject"@ || n
        == "message-id"@
}

/// The headers of `headers` whose names are curated, in their order.
pub open spec fn curated(headers: Seq<(Seq<char>, Seq<char>)>) -> Seq<(Seq<char>, Seq<char>)>
    decreases headers.len(),
{
    if headers.len() == 0 {
        headers
    } else if curated_name(headers.last().0) {
        curated(headers.drop_last()).push(headers.last())
    } else {
        curated(headers.drop_last())
    }
}

fn is_curated(name: &str) -> (r: bool)
    ensures
        r == curated_name(name@),
{
    let n = to_ascii_lowercase(name);
    let n = n.as_str();
    str_eq(n, "date") || str_eq(n, "from") || str_eq(n, "to") || str_eq(n, "cc") || str_eq(
        n,
        "subject",
    ) || str_eq(n, "message-id")
}

/// The headers to show: all of them if `include_all`, else those named
/// `Date`, `From`, `To`, `Cc`, `Subject` and `Message-ID` in any letter
/// case.
pub fn curated_headers(headers: &Vec<(String, String)>, include_all: bool) -> (r: Vec<
    (String, String),
>)
    ensures
        header_views(r@) == if include_all {
            header_views(headers@)
        } else {
            curated(header_views(headers@))
        },
{
    let ghost all = header_views(headers@);
    let mut r: Vec<(String, String)> = Vec::new();
    let mut i: usize = 0;
    assert(all.take(0) =~= Seq::<(Seq<char>, Seq<char>)>::empty());
    assert(header_views(r@) =~= Seq::<(Seq<char>, Seq<char>)>::empty());
    while i < headers.len()
        invariant
            i <= headers.len(),
            all == header_views(headers@),
            header_views(r@) == if include_all {
                all.take(i as int)
            } else {
                curated(all.take(i as int))
            },
        decreases headers.len() - i,
    {
        proof {
            assert(all.take(i + 1).drop_last() =~= all.take(i as int));
            assert(all.take(i + 1).last() == (headers@[i as int].0@, headers@[i as int].1@));
            assert(all.take(i + 1) =~= all.take(i as int).push(all[i as int]));
        }
        let ghost before = header_views(r@);
        if include_all || is_curated(headers[i].0.as_str()) {
            r.push((headers[i].0.clone(), headers[i].1.clone()));
            assert(header_views(r@) =~= before.push(all[i as int]));
        }
        i += 1;
    }
    assert(all.take(headers.len() as int) =~= all);
    r
}

/// Index of the first header named `name` in any letter case, or
/// `headers.len()`.
pub open spec fn header_position(headers: Seq<(Seq<char>, Seq<char>)>, name: Seq<char>) -> int
    decreases headers.len(),
{
    if headers.len() == 0 || eq_ignore_ascii_case(headers[0].0, name) {
        0
    } else {
        1 + header_position(headers.drop_first(), name)
    }
}

/// The value of the first header named `name` in any letter case, if there
/// is one.
pub open spec fn header_of(headers: Seq<(Seq<char>, Seq<char>)>, name: Seq<char>) -> Option<
    Seq<char>,
> {
    if header_position(headers, name) < headers.len() {
        Some(headers[header_position(headers, name)].1)
    } else {
        None
    }
}

pub proof fn lemma_header_position_unique(
    headers: Seq<(Seq<char>, Seq<char>)>,
    name: Seq<char>,
    k: int,
)
    requires
        0 <= k <= headers.len(),
        k < headers.len() ==> eq_ignore_ascii_case(headers[k].0, name),
        forall|i: int| 0 <= i < k ==> !eq_ignore_ascii_case((#[trigger] headers[i]).0, name),
    ensures
        header_position(headers, name) == k,
    decreases headers.len(),
{
    if k > 0 {
        let t = headers.drop_first();
        assert(!eq_ignore_ascii_case(headers[0].0, name));
        assert forall|i: int| 0 <= i < k - 1 implies !eq_ignore_ascii_case(
            (#[trigger] t[i]).0,
            name,
        ) by {
            assert(t[i] == headers[i + 1]);
        }
        lemma_header_position_unique(t, name, k - 1);
    }
}

/// The value of the first header named `key` in any letter case.
pub fn header_value(headers: &Vec<(String, String)>, key: &str) -> (r: Option<String>)
    ensures
        match header_of(header_views(headers@), key@) {
            Some(v) => r is Some && r->Some_0@ == v,
            None => r is None,
        },
{
    let ghost all = header_views(headers@);
    let mut i: usize = 0;
    while i < headers.len() && !str_eq_ignore_ascii_case(headers[i].0.as_str(), key)
        invariant
            i <= headers.len(),
            all == header_views(headers@),
            forall|j: int| 0 <= j < i ==> !eq_ignore_ascii_case((#[trigger] all[j]).0, key@),
        decreases headers.len() - i,
    {
        i += 1;
    }
    proof {
        lemma_header_position_unique(all, key@, i as int);
    }
    if i < headers.len() {
        Some(headers[i].1.clone())
    } else {
        None
    }
}

/// What `mailparse::parse_headers` reads from the bytes of a header block:
/// the headers as pairs of key (`MailHeader::get_key`) and value
/// (`MailHeader::get_value`), or the printed error.
pub uninterp spec fn mail_headers(bytes: Seq<u8>) -> Result<
    Seq<(Seq<char>, Seq<char>)>,
    Seq<char>,
>;

/// `mailparse::parse_headers` reads a header block; each header is handed
/// out as its key and its value, an error as its printed form.
#[verifier::external_body]
fn mailparse_headers(bytes: &[u8]) -> (r: Result<Vec<(String, String)>, String>)
    ensures
        match mail_headers(bytes@) {
            Ok(hs) => r is Ok && header_views(r->Ok_0@) == hs,
            Err(m) => r is Err && r->Err_0@ == m,
        },
{
    match mailparse::parse_headers(bytes) {
        Ok((headers, _)) => Ok(headers.iter().map(|h| (h.get_key(), h.get_value())).collect()),
        Err(e) => Err(e.to_string()),
    }
}

/// Reads the headers of a header block. A block that cannot be read is an
/// `Internal` error.
pub fn parse_header_bytes(header_bytes: &[u8]) -> (r: AppResult<Vec<(String, String)>>)
    ensures
        match mail_headers(header_bytes@) {
            Ok(hs) => r is Ok && header_views(r->Ok_0@) == hs,
            Err(m) => fails(r, ErrorKind::Internal, "failed to parse message headers: "@ + m),
        },
{
    match mailparse_headers(header_bytes) {
        Ok(h) => Ok(h),
        Err(e) => Err(AppError::Internal(concat2("failed to parse message headers: ", e.as_str()))),
    }
}

// ---------------------------------------------------------------------------
// Parts
// ---------------------------------------------------------------------------

/// One part of a message, as far as the library reads it. The parts of a
/// message are listed parents first, each followed by its subparts in their
/// order.
#[derive(Debug)]
pub struct FlatPart {
    /// The content type of the part.
    pub mimetype: String,
    /// Whether the part is disposed as an attachment.
    pub attachment: bool,
    /// The file name that the disposition gives.
    pub disposition_filename: Option<String>,
    /// The name that the content type gives.
    pub content_type_name: Option<String>,
    /// The body as text, if it can be decoded as text.
    pub text: Option<String>,
    /// The body as bytes, or the reason why it cannot be decoded.
    pub raw: Result<Vec<u8>, String>,
    /// Number of subparts.
    pub subparts: usize,
}

/// The text of an optional string.
pub open spec fn opt_text(o: Option<String>) -> Option<Seq<char>> {
    match o {
        Some(t) => Some(t@),
        None => None,
    }
}

/// Mathematical value of a `FlatPart`.
pub struct FlatPartView {
    pub mimetype: Seq<char>,
    pub attachment: bool,
    pub disposition_filename: Option<Seq<char>>,
    pub content_type_name: Option<Seq<char>>,
    pub text: Option<Seq<char>>,
    pub raw: Result<Seq<u8>, Seq<char>>,
    pub subparts: usize,
}

impl DeepView for FlatPart {
    type V = FlatPartView;

    open spec fn deep_view(&self) -> FlatPartView {
        FlatPartView {
            mimetype: self.mimetype@,
            attachment: self.attachment,
            disposition_filename: opt_text(self.disposition_filename),
            content_type_name: opt_text(self.content_type_name),
            text: opt_text(self.text),
            raw: match self.raw {
                Ok(b) => Ok(b@),
                Err(e) => Err(e@),
            },
            subparts: self.subparts,
        }
    }
}

/// What `mailparse::parse_mail` reads from the bytes of a message: its
/// parts in the order of `ParsedMail::parts`, each with its content type,
/// its disposition (`get_content_disposition`), its body as text
/// (`get_body`) and as bytes (`get_body_raw`) and the number of its
/// subparts; or the printed error.
pub uninterp spec fn mail_parts(bytes: Seq<u8>) -> Result<Seq<FlatPartView>, Seq<char>>;

/// The text that `ammonia::clean` makes of an HTML text: the same document
/// with everything taken out that could run or load anything.
pub uninterp spec fn clean_html(html: Seq<char>) -> Seq<char>;

/// `mailparse::parse_mail` reads a message, and `ParsedMail::parts` lists
/// its parts parents first. Each part is handed out in plain values.
#[verifier::external_body]
fn mailparse_parts(bytes: &[u8]) -> (r: Result<Vec<FlatPart>, String>)
    ensures
        match mail_parts(bytes@) {
            Ok(ps) => r is Ok && r->Ok_0.deep_view() == ps,
            Err(m) => r is Err && r->Err_0@ == m,
        },
{
    let mail = mailparse::parse_mail(bytes).map_err(|e| e.to_string())?;
    Ok(mail.parts().map(|p| (p, p.get_content_disposition())).map(|(p, d)| FlatPart {
        mimetype: p.ctype.mimetype.clone(),
        attachment: matches!(d.disposition, mailparse::DispositionType::Attachment),
        disposition_filename: d.params.get("filename").cloned(),
        content_type_name: p.ctype.params.get("name").cloned(),
        text: p.get_body().ok(),
        raw: p.get_body_raw().map_err(|e| e.to_string()),
        subparts: p.subparts.len(),
    }).collect())
}

/// `ammonia::clean` makes an HTML text safe to show.
#[verifier::external_body]
fn ammonia_clean(html: &str) -> (r: String)
    ensures
        r@ == clean_html(html@),
{
    ammonia::clean(html)
}

/// Mathematical value of an `AttachmentInfo`.
pub struct AttachmentView {
    pub filename: Option<Seq<char>>,
    pub content_type: Seq<char>,
    pub size_bytes: usize,
    pub part_id: Seq<char>,
    pub extracted_text: Option<Seq<char>>,
}

/// The mathematical value of an attachment.
pub open spec fn attachment_view(a: AttachmentInfo) -> AttachmentView {
    AttachmentView {
        filename: opt_text(a.filename),
        content_type: a.content_type@,
        size_bytes: a.size_bytes,
        part_id: a.part_id@,
        extracted_text: opt_text(a.extracted_text),
    }
}

/// The attachments of `v`, as mathematical values.
pub open spec fn attachment_views(v: Seq<AttachmentInfo>) -> Seq<AttachmentView> {
    Seq::new(v.len(), |i: int| attachment_view(v[i]))
}

/// The bytes of an attachment whose text is still to be extracted.
#[derive(Debug)]
pub struct PdfSource {
    /// Index of the attachment among the attachments of the message.
    pub attachment: usize,
    /// The bytes of the document.
    pub content: Vec<u8>,
}

/// The sources of `v`, as mathematical values.
pub open spec fn source_views(v: Seq<PdfSource>) -> Seq<(usize, Seq<u8>)> {
    Seq::new(v.len(), |i: int| (v[i].attachment, v[i].content@))
}

/// A part with subparts that are still to come: the number of the part,
/// how many of its subparts are still to come, and the number within the
/// part of the next one.
pub struct Level {
    pub id: Seq<char>,
    pub remaining: nat,
    pub next: nat,
}

/// The number of the part that comes next: `1` for the first part, else the
/// number of its parent, a dot and its number within the parent.
pub open spec fn next_part_id(levels: Seq<Level>) -> Seq<char> {
    if levels.len() == 0 {
        "1"@
    } else {
        levels.last().id + "."@ + crate::text::decimal(levels.last().next)
    }
}

/// The levels without those at the end of which no subpart is still to come.
pub open spec fn closed(levels: Seq<Level>) -> Seq<Level>
    decreases levels.len(),
{
    if levels.len() > 0 && levels.last().remaining == 0 {
        closed(levels.drop_last())
    } else {
        levels
    }
}

/// The levels after a part with `subparts` subparts has taken the number
/// `id`.
pub open spec fn stepped(levels: Seq<Level>, id: Seq<char>, subparts: usize) -> Seq<Level> {
    let counted = if levels.len() == 0 {
        levels
    } else {
        levels.drop_last().push(
            Level {
                id: levels.last().id,
                remaining: (levels.last().remaining - 1) as nat,
                next: levels.last().next + 1,
            },
        )
    };
    if subparts > 0 {
        counted.push(Level { id, remaining: subparts as nat, next: 1 })
    } else {
        closed(counted)
    }
}

/// What has been read from the parts of a message so far.
pub struct Gathered {
    /// The first text body.
    pub body_text: Option<Seq<char>>,
    /// The first HTML body, made safe.
    pub body_html: Option<Seq<char>>,
    pub attachments: Seq<AttachmentView>,
    /// The attachments whose text is still to be extracted.
    pub sources: Seq<(usize, Seq<u8>)>,
    pub levels: Seq<Level>,
    /// Why the reading stopped, if it did.
    pub failure: Option<Seq<char>>,
}

/// The largest document whose text is extracted, in bytes.
pub const MAX_PDF_BYTES: usize = 5_000_000;

/// What is read from a part without subparts.
///
/// The part is an attachment if it is disposed as one or has a file name;
/// the file name is that of the disposition, else the name of the content
/// type. Of the parts that are no attachments, the first of type
/// `text/plain` that can be decoded gives the text body, and the first of
/// type `text/html` the HTML body. An attachment that cannot be decoded
/// stops the reading. The text of a PDF document of at most `MAX_PDF_BYTES`
/// bytes is extracted if `extract` says so.
pub open spec fn leaf_read(g: Gathered, part: FlatPartView, id: Seq<char>, extract: bool) -> Gathered {
    let ctype = ascii_lower(part.mimetype);
    let filename = if part.disposition_filename is Some {
        part.disposition_filename
    } else {
        part.content_type_name
    };
    if !(part.attachment || filename is Some) {
        Gathered {
            body_text: if ctype == "text/plain"@ && g.body_text is None {
                part.text
            } else {
                g.body_text
            },
            body_html: if ctype == "text/html"@ && g.body_html is None && part.text is Some {
                Some(clean_html(part.text->Some_0))
            } else {
                g.body_html
            },
            ..g
        }
    } else {
        match part.raw {
            Err(e) => Gathered { failure: Some("failed decoding attachment body: "@ + e), ..g },
            Ok(bytes) => Gathered {
                attachments: g.attachments.push(
                    AttachmentView {
                        filename,
                        content_type: ctype,
                        size_bytes: bytes.len() as usize,
                        part_id: id,
                        extracted_text: None,
                    },
                ),
                sources: if extract && ctype == "application/pdf"@ && bytes.len() <= MAX_PDF_BYTES {
                    g.sources.push((g.attachments.len() as usize, bytes))
                } else {
                    g.sources
                },
                ..g
            },
        }
    }
}

/// What has been read once `part` has been read too.
pub open spec fn part_read(g: Gathered, part: FlatPartView, extract: bool) -> Gathered {
    let id = next_part_id(g.levels);
    let read = if part.subparts == 0 {
        leaf_read(g, part, id, extract)
    } else {
        g
    };
    Gathered { levels: stepped(g.levels, id, part.subparts), ..read }
}

/// What is read from the parts of a message, in their order, up to the
/// first attachment that cannot be decoded.
pub open spec fn gathered(parts: Seq<FlatPartView>, extract: bool) -> Gathered
    decreases parts.len(),
{
    if parts.len() == 0 {
        Gathered {
            body_text: None,
            body_html: None,
            attachments: Seq::empty(),
            sources: Seq::empty(),
            levels: Seq::empty(),
            failure: None,
        }
    } else {
        let g = gathered(parts.drop_last(), extract);
        if g.failure is Some {
            g
        } else {
            part_read(g, parts.last(), extract)
        }
    }
}

struct OpenPart {
    id: String,
    remaining: usize,
    seen: usize,
}

spec fn level_views(v: Seq<OpenPart>) -> Seq<Level> {
    Seq::new(
        v.len(),
        |i: int| Level { id: v[i].id@, remaining: v[i].remaining as nat, next: (v[i].seen + 1) as nat },
    )
}

/// Every level has counted no more subparts than it has, and the innermost
/// level has a subpart still to come.
spec fn levels_sound(v: Seq<OpenPart>) -> bool {
    &&& forall|i: int| 0 <= i < v.len() ==> (#[trigger] v[i]).seen + v[i].remaining <= usize::MAX
    &&& v.len() > 0 ==> v.last().remaining > 0
}

struct Walk {
    body_text: Option<String>,
    body_html: Option<String>,
    attachments: Vec<AttachmentInfo>,
    sources: Vec<PdfSource>,
    levels: Vec<OpenPart>,
}

impl Walk {
    spec fn gathered(self, failure: Option<Seq<char>>) -> Gathered {
        Gathered {
            body_text: opt_text(self.body_text),
            body_html: opt_text(self.body_html),
            attachments: attachment_views(self.attachments@),
            sources: source_views(self.sources@),
            levels: level_views(self.levels@),
            failure,
        }
    }
}

fn close_levels(levels: &mut Vec<OpenPart>)
    ensures
        level_views(final(levels)@) == closed(level_views(old(levels)@)),
        forall|i: int|
            0 <= i < final(levels)@.len() ==> (#[trigger] final(levels)@[i]) == old(levels)@[i],
        final(levels)@.len() <= old(levels)@.len(),
        final(levels)@.len() > 0 ==> final(levels)@.last().remaining > 0,
{
    while levels.len() > 0 && levels[levels.len() - 1].remaining == 0
        invariant
            closed(level_views(levels@)) == closed(level_views(old(levels)@)),
            levels@.len() <= old(levels)@.len(),
            forall|i: int| 0 <= i < levels@.len() ==> (#[trigger] levels@[i]) == old(levels)@[i],
        decreases levels.len(),
    {
        let ghost before = level_views(levels@);
        let _ = levels.pop();
        assert(level_views(levels@) =~= before.drop_last());
    }
}

fn read_leaf(walk: &mut Walk, part: FlatPart, id: String, extract: bool) -> (r: Result<(), String>)
    requires
        part.subparts == 0,
    ensures
        final(walk).levels == old(walk).levels,
        final(walk).gathered(
            match r {
                Ok(_) => None,
                Err(e) => Some("failed decoding attachment body: "@ + e@),
            },
        ) == leaf_read(old(walk).gathered(None), part.deep_view(), id@, extract),
{
    let ctype = to_ascii_lowercase(part.mimetype.as_str());
    let filename = match part.disposition_filename {
        Some(f) => Some(f),
        None => part.content_type_name,
    };
    if !(part.attachment || filename.is_some()) {
        if str_eq(ctype.as_str(), "text/plain") && walk.body_text.is_none() {
            walk.body_text = part.text;
        } else if str_eq(ctype.as_str(), "text/html") && walk.body_html.is_none() {
            if let Some(h) = &part.text {
                walk.body_html = Some(ammonia_clean(h.as_str()));
            }
        }
        proof {
            reveal_strlit("text/plain");
            reveal_strlit("text/html");
            assert("text/plain"@.len() == 10 && "text/html"@.len() == 9);
        }
        return Ok(());
    }
    match part.raw {
        Err(e) => Err(e),
        Ok(bytes) => {
            let ghost before = attachment_views(walk.attachments@);
            let ghost sources = source_views(walk.sources@);
            if wants_pdf_text(extract, ctype.as_str(), bytes.len()) {
                let content = bytes.clone();
                assert(content@ =~= bytes@);
                walk.sources.push(PdfSource { attachment: walk.attachments.len(), content });
                assert(source_views(walk.sources@) =~= sources.push(
                    (walk.attachments@.len() as usize, bytes@),
                ));
            }
            let info = AttachmentInfo {
                filename,
                content_type: ctype,
                size_bytes: bytes.len(),
                part_id: id,
                extracted_text: None,
            };
            walk.attachments.push(info);
            assert(attachment_views(walk.attachments@) =~= before.push(attachment_view(info)));
            Ok(())
        },
    }
}

fn step_levels(levels: &mut Vec<OpenPart>, id: String, subparts: usize)
    requires
        levels_sound(old(levels)@),
    ensures
        level_views(final(levels)@) == stepped(level_views(old(levels)@), id@, subparts),
        levels_sound(final(levels)@),
{
    let ghost before = level_views(levels@);
    if levels.len() > 0 {
        let top = levels.pop().unwrap();
        levels.push(OpenPart { id: top.id, remaining: top.remaining - 1, seen: top.seen + 1 });
        assert(level_views(levels@) =~= before.drop_last().push(
            Level {
                id: before.last().id,
                remaining: (before.last().remaining - 1) as nat,
                next: before.last().next + 1,
            },
        ));
    }
    let ghost counted = level_views(levels@);
    let ghost mid = levels@;
    assert forall|i: int| 0 <= i < mid.len() implies (#[trigger] mid[i]).seen + mid[i].remaining
        <= usize::MAX by {
        if i < mid.len() - 1 {
            assert(mid[i] == old(levels)@[i]);
        }
    }
    if subparts > 0 {
        levels.push(OpenPart { id, remaining: subparts, seen: 0 });
        assert(level_views(levels@) =~= counted.push(
            Level { id: id@, remaining: subparts as nat, next: 1 },
        ));
        assert forall|i: int| 0 <= i < levels@.len() implies (#[trigger] levels@[i]).seen
            + levels@[i].remaining <= usize::MAX by {
            if i < mid.len() {
                assert(levels@[i] == mid[i]);
            }
        }
    } else {
        close_levels(levels);
        assert forall|i: int| 0 <= i < levels@.len() implies (#[trigger] levels@[i]).seen
            + levels@[i].remaining <= usize::MAX by {
            assert(levels@[i] == mid[i]);
        }
    }
}

fn part_id_of(levels: &Vec<OpenPart>) -> (id: String)
    requires
        levels_sound(levels@),
    ensures
        id@ == next_part_id(level_views(levels@)),
{
    if levels.len() == 0 {
        "1".to_owned()
    } else {
        let top = &levels[levels.len() - 1];
        let mut id = concat2(top.id.as_str(), ".");
        crate::text::push_decimal(&mut id, (top.seen + 1) as u64);
        id
    }
}

/// Reads the parts of a message, in their order.
fn walk_parts(parts: Vec<FlatPart>, extract: bool) -> (r: AppResult<Walk>)
    ensures
        match gathered(parts.deep_view(), extract).failure {
            Some(m) => fails(r, ErrorKind::Internal, m),
            None => r is Ok && r->Ok_0.gathered(None) == gathered(parts.deep_view(), extract),
        },
{
    let ghost all = parts.deep_view();
    let mut walk = Walk {
        body_text: None,
        body_html: None,
        attachments: Vec::new(),
        sources: Vec::new(),
        levels: Vec::new(),
    };
    proof {
        assert(all.take(0) =~= Seq::<FlatPartView>::empty());
        assert(attachment_views(walk.attachments@) =~= Seq::<AttachmentView>::empty());
        assert(source_views(walk.sources@) =~= Seq::<(usize, Seq<u8>)>::empty());
        assert(level_views(walk.levels@) =~= Seq::<Level>::empty());
    }
    for part in it: parts
        invariant
            it.seq() == parts@,
            all == parts.deep_view(),
            levels_sound(walk.levels@),
            gathered(all.take(it.index()), extract).failure is None,
            walk.gathered(None) == gathered(all.take(it.index()), extract),
    {
        proof {
            let i = it.index();
            assert(all.take(i + 1).drop_last() =~= all.take(i));
            assert(all.take(i + 1).last() == part.deep_view());
        }
        let id = part_id_of(&walk.levels);
        let subparts = part.subparts;
        let ghost before = walk.gathered(None);
        let ghost view = part.deep_view();
        if subparts == 0 {
            let copy = id.clone();
            match read_leaf(&mut walk, part, copy, extract) {
                Ok(()) => {},
                Err(e) => {
                    proof {
                        let g = gathered(all.take(it.index() + 1), extract);
                        assert(g.failure == Some("failed decoding attachment body: "@ + e@));
                        lemma_failure_stays(all, it.index() + 1, extract);
                    }
                    return Err(
                        AppError::Internal(concat2("failed decoding attachment body: ", e.as_str())),
                    );
                },
            }
        }
        step_levels(&mut walk.levels, id, subparts);
        proof {
            assert(walk.gathered(None) == part_read(before, view, extract));
        }
    }
    proof {
        assert(all.take(all.len() as int) =~= all);
    }
    Ok(walk)
}

/// Once the reading has stopped it stays stopped, for the same reason.
proof fn lemma_failure_stays(parts: Seq<FlatPartView>, k: int, extract: bool)
    requires
        0 <= k <= parts.len(),
        gathered(parts.take(k), extract).failure is Some,
    ensures
        gathered(parts, extract) == gathered(parts.take(k), extract),
    decreases parts.len() - k,
{
    if k == parts.len() {
        assert(parts.take(k) =~= parts);
    } else {
        assert(parts.take(k + 1).drop_last() =~= parts.take(k));
        lemma_failure_stays(parts, k + 1, extract);
    }
}

/// What was read from a message.
#[derive(Debug)]
pub struct ParsedMessage {
    pub date: Option<String>,
    pub from: Option<String>,
    pub to: Option<String>,
    pub cc: Option<String>,
    pub subject: Option<String>,
    /// Every header, in the order of the message.
    pub headers_all: Vec<(String, String)>,
    /// The text body, cut down to the length asked for.
    pub body_text: Option<String>,
    /// The HTML body, made safe and cut down to the length asked for.
    pub body_html_sanitized: Option<String>,
    pub attachments: Vec<AttachmentInfo>,
    /// The attachments whose text is still to be extracted.
    pub pdf_sources: Vec<PdfSource>,
}

/// An optional text, cut down to `max_chars` characters.
pub open spec fn opt_truncated(o: Option<Seq<char>>, max_chars: usize) -> Option<Seq<char>> {
    match o {
        Some(t) => Some(truncated(t, max_chars)),
        None => None,
    }
}

/// `m` is the message with the headers `headers` from whose parts `g` was
/// read.
pub open spec fn assembled(
    m: ParsedMessage,
    headers: Seq<(Seq<char>, Seq<char>)>,
    g: Gathered,
    body_max_chars: usize,
    include_html: bool,
) -> bool {
    &&& opt_text(m.date) == header_of(headers, "date"@)
    &&& opt_text(m.from) == header_of(headers, "from"@)
    &&& opt_text(m.to) == header_of(headers, "to"@)
    &&& opt_text(m.cc) == header_of(headers, "cc"@)
    &&& opt_text(m.subject) == header_of(headers, "subject"@)
    &&& header_views(m.headers_all@) == headers
    &&& opt_text(m.body_text) == opt_truncated(g.body_text, body_max_chars)
    &&& opt_text(m.body_html_sanitized) == if include_html {
        opt_truncated(g.body_html, body_max_chars)
    } else {
        None
    }
    &&& attachment_views(m.attachments@) == g.attachments
    &&& source_views(m.pdf_sources@) == g.sources
}

/// What reading the bytes `raw` as a message yields.
///
/// Bytes that are no message, and headers or an attachment that cannot be
/// decoded, are `Internal` errors. The text of PDF attachments is not
/// extracted here: the attachments that want it are listed as sources.
pub open spec fn message_parsed(
    r: AppResult<ParsedMessage>,
    raw: Seq<u8>,
    body_max_chars: usize,
    include_html: bool,
    extract_attachment_text: bool,
) -> bool {
    match mail_parts(raw) {
        Err(m) => fails(r, ErrorKind::Internal, "failed to parse RFC822 message: "@ + m),
        Ok(parts) => match mail_headers(raw) {
            Err(m) => fails(r, ErrorKind::Internal, "failed to parse message headers: "@ + m),
            Ok(headers) => message_assembled(
                r,
                headers,
                parts,
                body_max_chars,
                include_html,
                extract_attachment_text,
            ),
        },
    }
}

/// `r` is what the headers `headers` and the parts `parts` of a message
/// make: the message, or an `Internal` error for an attachment that cannot
/// be decoded.
pub open spec fn message_assembled(
    r: AppResult<ParsedMessage>,
    headers: Seq<(Seq<char>, Seq<char>)>,
    parts: Seq<FlatPartView>,
    body_max_chars: usize,
    include_html: bool,
    extract_attachment_text: bool,
) -> bool {
    match gathered(parts, extract_attachment_text).failure {
        Some(m) => fails(r, ErrorKind::Internal, m),
        None => r is Ok && assembled(
            r->Ok_0,
            headers,
            gathered(parts, extract_attachment_text),
            body_max_chars,
            include_html,
        ),
    }
}

fn truncate_opt(o: Option<String>, max_chars: usize) -> (r: Option<String>)
    ensures
        opt_text(r) == opt_truncated(opt_text(o), max_chars),
{
    match o {
        Some(t) => Some(truncate_chars(t, max_chars)),
        None => None,
    }
}

/// Makes a message of its headers and its parts: the first text body and
/// the first HTML body that are no attachments, made safe and cut down to
/// `body_max_chars` characters, and the attachments with their part numbers.
pub fn assemble_message(
    headers: Vec<(String, String)>,
    parts: Vec<FlatPart>,
    body_max_chars: usize,
    include_html: bool,
    extract_attachment_text: bool,
) -> (r: AppResult<ParsedMessage>)
    ensures
        message_assembled(
            r,
            header_views(headers@),
            parts.deep_view(),
            body_max_chars,
            include_html,
            extract_attachment_text,
        ),
{
    let walk = match walk_parts(parts, extract_attachment_text) {
        Ok(w) => w,
        Err(e) => {
            return Err(e);
        },
    };
    let body_text = truncate_opt(walk.body_text, body_max_chars);
    let body_html_sanitized = if include_html {
        truncate_opt(walk.body_html, body_max_chars)
    } else {
        None
    };
    Ok(
        ParsedMessage {
            date: header_value(&headers, "date"),
            from: header_value(&headers, "from"),
            to: header_value(&headers, "to"),
            cc: header_value(&headers, "cc"),
            subject: header_value(&headers, "subject"),
            headers_all: headers,
            body_text,
            body_html_sanitized,
            attachments: walk.attachments,
            pdf_sources: walk.sources,
        },
    )
}

/// Reads a message: its headers, its bodies cut down to `body_max_chars`
/// characters, and its attachments.
pub fn parse_message(
    raw: &[u8],
    body_max_chars: usize,
    include_html: bool,
    extract_attachment_text: bool,
) -> (r: AppResult<ParsedMessage>)
    ensures
        message_parsed(r, raw@, body_max_chars, include_html, extract_attachment_text),
{
    let parts = match mailparse_parts(raw) {
        Ok(p) => p,
        Err(e) => {
            return Err(AppError::Internal(concat2("failed to parse RFC822 message: ", e.as_str())));
        },
    };
    let headers = match parse_header_bytes(raw) {
        Ok(h) => h,
        Err(e) => {
            return Err(e);
        },
    };
    assemble_message(headers, parts, body_max_chars, include_html, extract_attachment_text)
}

/// Whether the text of an attachment is to be extracted: only on request,
/// only of PDF documents, and only of documents of at most `MAX_PDF_BYTES`
/// bytes.
pub fn wants_pdf_text(extract: bool, content_type: &str, size_bytes: usize) -> (r: bool)
    ensures
        r == (extract && content_type@ == "application/pdf"@ && size_bytes <= MAX_PDF_BYTES),
{
    extract && str_eq(content_type, "application/pdf") && size_bytes <= MAX_PDF_BYTES
}

/// Notes the text that was extracted from the attachment `index`, cut down
/// to `max_chars` characters. A text that could not be extracted leaves the
/// attachment as it is, and so does an index that names no attachment.
pub fn note_extracted_text(
    attachments: &mut Vec<AttachmentInfo>,
    index: usize,
    text: Option<String>,
    max_chars: usize,
)
    ensures
        attachment_views(final(attachments)@) == if index < old(attachments)@.len() && text is Some {
            attachment_views(old(attachments)@).update(
                index as int,
                AttachmentView {
                    extracted_text: Some(truncated(text->Some_0@, max_chars)),
                    ..attachment_view(old(attachments)@[index as int])
                },
            )
        } else {
            attachment_views(old(attachments)@)
        },
{
    if index < attachments.len() {
        if let Some(t) = text {
            let cut = truncate_chars(t, max_chars);
            let mut a = attachments.remove(index);
            a.extracted_text = Some(cut);
            attachments.insert(index, a);
            assert(attachment_views(final(attachments)@) =~= attachment_views(
                old(attachments)@,
            ).update(
                index as int,
                AttachmentView {
                    extracted_text: Some(truncated(text->Some_0@, max_chars)),
                    ..attachment_view(old(attachments)@[index as int])
                },
            ));
        }
    }
}

} // verus!
