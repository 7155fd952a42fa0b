//! Local attachment files: file-name cleaning, path templates and the path checks made
//! before a file is written.
//!
//! A template may use `{uid}`, `{filename}` (cleaned), `{timestamp}` (Unix seconds) and
//! `{uuid}`, and may contain sub-directories; the default is `{uid}_{filename}`.
use crate::error::IpcError;
use crate::text::{
    chars_of, decimal, extend_chars, is_blank, push_decimal, push_hex_padded, string_from_chars,
    trim_ws, unicode_alphanumeric, char_is_alphanumeric, hex, zero_pad,
};
use vstd::prelude::*;

verus! {

/// Template used when none is configured.
pub const DEFAULT_TEMPLATE: &'static str = "{uid}_{filename}";

// ---------------------------------------------------------------------------
// File names
// ---------------------------------------------------------------------------

/// Characters kept in file names: Unicode letters and digits, `- _ . ( )` and CJK ideographs.
pub open spec fn kept_in_filename(c: char) -> bool {
    unicode_alphanumeric(c) || c == '-' || c == '_' || c == '.' || c == '(' || c == ')' || (
    0x4E00 <= (c as u32) && (c as u32) <= 0x9FFF)
}

/// The file name with every other character replaced by `_`, and a `_` put in front when
/// it is empty or starts with `.`.
pub open spec fn sanitized(name: Seq<char>) -> Seq<char> {
    let m = name.map_values(|c: char| if kept_in_filename(c) { c } else { '_' });
    if m.len() == 0 || m[0] == '.' {
        seq!['_'] + m
    } else {
        m
    }
}

fn keep_char(c: char) -> (r: bool)
    ensures
        r == kept_in_filename(c),
{
    char_is_alphanumeric(c) || c == '-' || c == '_' || c == '.' || c == '(' || c == ')' || (
    0x4E00 <= (c as u32) && (c as u32) <= 0x9FFF)
}

/// Cleans a file name: path separators and other unsafe characters become `_`; an empty
/// name or one starting with `.` gets a leading `_`.
pub fn sanitize_filename(name: &str) -> (r: String)
    ensures
        r@ == sanitized(name@),
{
    let c = chars_of(name);
    let mut out: Vec<char> = Vec::new();
    let mut k: usize = 0;
    while k < c.len()
        invariant
            k <= c.len(),
            out@ == c@.take(k as int).map_values(
                |x: char| if kept_in_filename(x) {
                    x
                } else {
                    '_'
                },
            ),
        decreases c.len() - k,
    {
        if keep_char(c[k]) {
            out.push(c[k]);
        } else {
            out.push('_');
        }
        k = k + 1;
        assert(out@ =~= c@.take(k as int).map_values(
            |x: char| if kept_in_filename(x) {
                x
            } else {
                '_'
            },
        ));
    }
    assert(c@.take(c.len() as int) =~= c@);
    if out.len() == 0 || out[0] == '.' {
        let mut fixed: Vec<char> = Vec::new();
        fixed.push('_');
        extend_chars(&mut fixed, out.as_slice());
        string_from_chars(fixed.as_slice())
    } else {
        string_from_chars(out.as_slice())
    }
}

/// Law: cleaning a file name keeps, in place, every Unicode letter or digit, `-`, `_`, `.`,
/// `(`, `)` and CJK ideograph (U+4E00 to U+9FFF), turns every other character into `_`, and
/// puts a `_` in front exactly when the name is empty or starts with `.`; so a non-empty
/// name of kept characters that does not start with `.` comes back unchanged.
pub proof fn law_sanitized_names(name: Seq<char>)
    ensures
        ({
            let shift: int = if name.len() == 0 || name[0] == '.' {
                1
            } else {
                0
            };
            &&& sanitized(name).len() == name.len() + shift
            &&& shift == 1 ==> sanitized(name)[0] == '_'
            &&& forall|k: int|
                0 <= k < name.len() ==> #[trigger] sanitized(name)[k + shift] == if (
                unicode_alphanumeric(name[k]) || name[k] == '-' || name[k] == '_' || name[k]
                    == '.' || name[k] == '(' || name[k] == ')' || (0x4E00 <= (name[k] as u32)
                    && (name[k] as u32) <= 0x9FFF)) {
                    name[k]
                } else {
                    '_'
                }
        }),
        (name.len() > 0 && name[0] != '.' && forall|k: int|
            0 <= k < name.len() ==> (unicode_alphanumeric(#[trigger] name[k]) || name[k] == '-'
                || name[k] == '_' || name[k] == '.' || name[k] == '(' || name[k] == ')' || (0x4E00
                <= (name[k] as u32) && (name[k] as u32) <= 0x9FFF))) ==> sanitized(name) == name,
{
    let m = name.map_values(|c: char| if kept_in_filename(c) { c } else { '_' });
    if name.len() > 0 {
        assert(m[0] == '.' <==> name[0] == '.');
    }
    if name.len() > 0 && name[0] != '.' && forall|k: int|
        0 <= k < name.len() ==> (unicode_alphanumeric(#[trigger] name[k]) || name[k] == '-'
            || name[k] == '_' || name[k] == '.' || name[k] == '(' || name[k] == ')' || (0x4E00
            <= (name[k] as u32) && (name[k] as u32) <= 0x9FFF)) {
        assert(m =~= name);
    }
}

// ---------------------------------------------------------------------------
// Templates
// ---------------------------------------------------------------------------

/// Whether `pat` occurs in `s` at position `i`.
pub open spec fn occurs_at(s: Seq<char>, pat: Seq<char>, i: int) -> bool {
    0 <= i && i + pat.len() <= s.len() && s.subrange(i, i + pat.len()) == pat
}

/// `s` from position `i` on with each occurrence of `pat`, found left to right without
/// overlap, replaced by `rep` (as `str::replace` does).
pub open spec fn replace_from(s: Seq<char>, pat: Seq<char>, rep: Seq<char>, i: int) -> Seq<char>
    decreases s.len() - i,
{
    if i < 0 || i >= s.len() || pat.len() == 0 {
        if 0 <= i <= s.len() {
            s.skip(i)
        } else {
            seq![]
        }
    } else if occurs_at(s, pat, i) {
        rep + replace_from(s, pat, rep, i + pat.len())
    } else {
        seq![s[i]] + replace_from(s, pat, rep, i + 1)
    }
}

/// `s` with every occurrence of `pat` replaced by `rep`.
pub open spec fn replace_all(s: Seq<char>, pat: Seq<char>, rep: Seq<char>) -> Seq<char> {
    replace_from(s, pat, rep, 0)
}

fn matches_at(s: &Vec<char>, pat: &Vec<char>, i: usize) -> (r: bool)
    requires
        i <= s.len(),
    ensures
        r == occurs_at(s@, pat@, i as int),
{
    if pat.len() > s.len() - i {
        return false;
    }
    let mut k: usize = 0;
    while k < pat.len()
        invariant
            k <= pat.len(),
            i + pat.len() <= s.len(),
            forall|q: int| 0 <= q < k ==> s@[i + q] == pat@[q],
        decreases pat.len() - k,
    {
        if s[i + k] != pat[k] {
            assert(s@.subrange(i as int, i + pat.len())[k as int] != pat@[k as int]);
            return false;
        }
        k = k + 1;
    }
    assert(s@.subrange(i as int, i + pat.len()) =~= pat@);
    true
}

/// `s` with every occurrence of `pat`, left to right without overlap, replaced by `rep`.
pub fn replace_chars(s: &Vec<char>, pat: &Vec<char>, rep: &Vec<char>) -> (r: Vec<char>)
    ensures
        r@ == replace_all(s@, pat@, rep@),
{
    let mut out: Vec<char> = Vec::new();
    if pat.len() == 0 {
        extend_chars(&mut out, s.as_slice());
        assert(s@.skip(0) =~= s@);
        return out;
    }
    let mut i: usize = 0;
    while i < s.len()
        invariant
            i <= s.len(),
            pat.len() > 0,
            replace_all(s@, pat@, rep@) == out@ + replace_from(s@, pat@, rep@, i as int),
        decreases s.len() - i,
    {
        if matches_at(s, pat, i) {
            let ghost before = out@;
            extend_chars(&mut out, rep.as_slice());
            assert(before + (rep@ + replace_from(s@, pat@, rep@, i + pat.len())) =~= out@
                + replace_from(s@, pat@, rep@, i + pat.len()));
            i = i + pat.len();
        } else {
            let ghost before = out@;
            out.push(s[i]);
            assert(before + (seq![s@[i as int]] + replace_from(s@, pat@, rep@, i + 1)) =~= out@
                + replace_from(s@, pat@, rep@, i + 1));
            i = i + 1;
        }
    }
    assert(replace_from(s@, pat@, rep@, i as int) =~= seq![]);
    assert(out@ + seq![] =~= out@);
    out
}

/// The relative path a template gives: `{uid}`, then `{filename}` (cleaned), then
/// `{timestamp}`, then `{uuid}` replaced in turn.
pub open spec fn rendered_path(
    template: Seq<char>,
    uid: Seq<char>,
    filename: Seq<char>,
    timestamp: u64,
    uuid: Seq<char>,
) -> Seq<char> {
    replace_all(
        replace_all(
            replace_all(replace_all(template, "{uid}"@, uid), "{filename}"@, sanitized(filename)),
            "{timestamp}"@,
            decimal(timestamp as nat),
        ),
        "{uuid}"@,
        uuid,
    )
}

/// Renders a path template for one attachment; `timestamp` and `uuid` are the values the
/// `{timestamp}` and `{uuid}` variables take.
pub fn render_template(
    template: &str,
    uid: &str,
    filename: &str,
    timestamp: u64,
    uuid: &str,
) -> (r: String)
    ensures
        r@ == rendered_path(template@, uid@, filename@, timestamp, uuid@),
{
    let safe_name = sanitize_filename(filename);
    let mut ts: Vec<char> = Vec::new();
    push_decimal(&mut ts, timestamp);
    assert(ts@ =~= decimal(timestamp as nat));
    let t0 = chars_of(template);
    let t1 = replace_chars(&t0, &chars_of("{uid}"), &chars_of(uid));
    let t2 = replace_chars(&t1, &chars_of("{filename}"), &chars_of(safe_name.as_str()));
    let t3 = replace_chars(&t2, &chars_of("{timestamp}"), &ts);
    let t4 = replace_chars(&t3, &chars_of("{uuid}"), &chars_of(uuid));
    string_from_chars(t4.as_slice())
}

/// The unique id used for `{uuid}`: seconds as 8 hex digits, sub-second nanoseconds as 5,
/// then a counter as 3 (each zero-padded, longer when the value needs it).
pub open spec fn uuid_text(secs: u64, nanos: u32, seq: u64) -> Seq<char> {
    zero_pad(hex(secs as nat), 8) + zero_pad(hex(nanos as nat), 5) + zero_pad(hex(seq as nat), 3)
}

/// Formats the `{uuid}` value from the clock reading and a counter.
pub fn simple_uuid(secs: u64, nanos: u32, seq: u64) -> (r: String)
    ensures
        r@ == uuid_text(secs, nanos, seq),
{
    let mut out: Vec<char> = Vec::new();
    push_hex_padded(&mut out, secs, 8);
    push_hex_padded(&mut out, nanos as u64, 5);
    push_hex_padded(&mut out, seq, 3);
    assert(out@ =~= uuid_text(secs, nanos, seq));
    string_from_chars(out.as_slice())
}

/// Whether `s` contains `..` anywhere.
pub open spec fn has_parent_ref(s: Seq<char>) -> bool {
    exists|k: int| 0 <= k && k + 1 < s.len() && #[trigger] dot_pair_at(s, k)
}

/// Whether `s` holds `..` at position `k`.
pub open spec fn dot_pair_at(s: Seq<char>, k: int) -> bool {
    s[k] == '.' && s[k + 1] == '.'
}

fn contains_dot_dot(s: &Vec<char>) -> (r: bool)
    ensures
        r == has_parent_ref(s@),
{
    if s.len() < 2 {
        return false;
    }
    let mut k: usize = 0;
    while k + 1 < s.len()
        invariant
            k + 1 <= s.len(),
            forall|q: int| 0 <= q < k ==> !#[trigger] dot_pair_at(s@, q),
        decreases s.len() - k,
    {
        if s[k] == '.' && s[k + 1] == '.' {
            assert(dot_pair_at(s@, k as int));
            return true;
        }
        k = k + 1;
    }
    false
}

/// The relative path a new attachment file gets: the template (the default one when blank)
/// rendered for the file. A path containing `..` is refused.
pub open spec fn planned_path(
    template: Seq<char>,
    uid: Seq<char>,
    filename: Seq<char>,
    timestamp: u64,
    uuid: Seq<char>,
) -> Seq<char> {
    let t = if trim_ws(template).len() == 0 {
        "{uid}_{filename}"@
    } else {
        template
    };
    rendered_path(t, uid, filename, timestamp, uuid)
}

/// Chooses the relative path of a new attachment file, refusing templates that would leave
/// the attachment directory.
pub fn plan_file_path(
    template: &str,
    uid: &str,
    filename: &str,
    timestamp: u64,
    uuid: &str,
) -> (r: Result<String, IpcError>)
    ensures
        has_parent_ref(planned_path(template@, uid@, filename@, timestamp, uuid@)) <==> r is Err,
        r matches Err(e) ==> e is BadRequest,
        r matches Ok(p) ==> p@ == planned_path(template@, uid@, filename@, timestamp, uuid@),
{
    let tc = chars_of(template);
    let relative = if is_blank(tc.as_slice()) {
        render_template(DEFAULT_TEMPLATE, uid, filename, timestamp, uuid)
    } else {
        render_template(template, uid, filename, timestamp, uuid)
    };
    let rc = chars_of(relative.as_str());
    if contains_dot_dot(&rc) {
        return Err(IpcError::BadRequest(String::from_str("文件名模板包含非法路径")));
    }
    Ok(relative)
}

/// Whether a stored reference may be read: it must not climb out of the attachment
/// directory through `..`.
pub fn reference_is_safe(reference: &str) -> (r: bool)
    ensures
        r == !has_parent_ref(reference@),
{
    let c = chars_of(reference);
    !contains_dot_dot(&c)
}

/// Law: a cleaned file name is never empty, never starts with `.`, and holds only kept
/// characters and `_`; in particular no path separator survives.
pub proof fn law_sanitized_names_are_safe(name: Seq<char>)
    ensures
        sanitized(name).len() > 0,
        sanitized(name)[0] != '.',
        forall|k: int|
            0 <= k < sanitized(name).len() ==> kept_in_filename(#[trigger] sanitized(name)[k])
                || sanitized(name)[k] == '_',
{
    let m = name.map_values(|c: char| if kept_in_filename(c) { c } else { '_' });
    if m.len() == 0 || m[0] == '.' {
        assert forall|k: int| 0 <= k < sanitized(name).len() implies kept_in_filename(
            #[trigger] sanitized(name)[k],
        ) || sanitized(name)[k] == '_' by {
            if k > 0 {
                assert(sanitized(name)[k] == m[k - 1]);
            }
        }
    }
}

/// The error for a new file whose path is already taken.
pub fn file_exists_error(relative: &String) -> (e: IpcError)
    ensures
        e matches IpcError::BadRequest(m) && m@ == "文件已存在: "@ + relative@,
{
    IpcError::BadRequest(crate::error::with_prefix("文件已存在: ", relative))
}

/// The error for a stored file that cannot be found, with the reason the system gave.
pub fn missing_file_error(reference: &str, reason: &str) -> (e: IpcError)
    ensures
        e matches IpcError::NotFound(m) && m@ == "附件文件不存在: "@ + reference@ + " ("@ + reason@
            + ")"@,
{
    let mut s = String::from_str("附件文件不存在: ");
    s.append(reference);
    s.append(" (");
    s.append(reason);
    s.append(")");
    IpcError::NotFound(s)
}

/// The error for an attachment directory that cannot be resolved.
pub fn unresolved_dir_error(reason: &String) -> (e: IpcError)
    ensures
        e matches IpcError::Internal(m) && m@ == "无法规范化附件目录: "@ + reason@,
{
    IpcError::Internal(crate::error::with_prefix("无法规范化附件目录: ", reason))
}

/// The error for a reference that resolves outside the attachment directory.
pub fn outside_dir_error() -> (e: IpcError)
    ensures
        e matches IpcError::BadRequest(m) && m@ == "非法的附件路径"@,
{
    IpcError::BadRequest(String::from_str("非法的附件路径"))
}

} // verus!
