//! Commit-message generation: the prompt sent to the model, and the
//! post-processing of its answer (version line, subject length).

use vstd::prelude::*;
use vstd::string::*;
use vstd::utf8::*;

use crate::strings;
use crate::text;

verus! {

broadcast use vstd::utf8::encode_utf8_valid_utf8, vstd::string::group_string_axioms;

/// The longest subject line, in characters.
pub const SUBJECT_LIMIT: usize = 90;

/// The first index of `x` in `s` (`str::find`).
pub open spec fn first_index<A>(s: Seq<A>, x: A) -> Option<int>
    decreases s.len(),
{
    if s.len() == 0 {
        None
    } else {
        match first_index(s.drop_last(), x) {
            Some(i) => Some(i),
            None => if s.last() == x {
                Some(s.len() - 1)
            } else {
                None
            },
        }
    }
}

/// The last index of `x` in `s` (`str::rfind`).
pub open spec fn last_index<A>(s: Seq<A>, x: A) -> Option<int>
    decreases s.len(),
{
    if s.len() == 0 {
        None
    } else if s.last() == x {
        Some(s.len() - 1)
    } else {
        last_index(s.drop_last(), x)
    }
}

/// Where an over-long subject `sub` is cut: at its last space within the
/// first `SUBJECT_LIMIT` characters, or after those characters when there
/// is no such space.
pub open spec fn subject_cut(sub: Seq<char>) -> int {
    match last_index(sub.take(SUBJECT_LIMIT as int), ' ') {
        Some(i) => i,
        None => SUBJECT_LIMIT as int,
    }
}

/// The message `m` with its first line cut to at most `SUBJECT_LIMIT`
/// characters when it is longer; the rest of the message is kept.
pub open spec fn truncated_subject(m: Seq<char>) -> Seq<char> {
    match first_index(m, '\n') {
        Some(n) => if n > SUBJECT_LIMIT {
            m.take(subject_cut(m.take(n))) + m.skip(n)
        } else {
            m
        },
        None => if m.len() > SUBJECT_LIMIT {
            m.take(subject_cut(m))
        } else {
            m
        },
    }
}

pub proof fn lemma_first_index<A>(s: Seq<A>, x: A)
    ensures
        match first_index(s, x) {
            Some(i) => 0 <= i < s.len() && s[i] == x && forall|j: int| 0 <= j < i ==> s[j] != x,
            None => forall|j: int| 0 <= j < s.len() ==> s[j] != x,
        },
    decreases s.len(),
{
    if s.len() > 0 {
        lemma_first_index(s.drop_last(), x);
        assert forall|j: int| 0 <= j < s.len() - 1 implies s[j] == s.drop_last()[j] by {}
    }
}

pub proof fn lemma_last_index<A>(s: Seq<A>, x: A)
    ensures
        match last_index(s, x) {
            Some(i) => 0 <= i < s.len() && s[i] == x,
            None => forall|j: int| 0 <= j < s.len() ==> s[j] != x,
        },
    decreases s.len(),
{
    if s.len() > 0 && s.last() != x {
        lemma_last_index(s.drop_last(), x);
        assert forall|j: int| 0 <= j < s.len() - 1 implies s[j] == s.drop_last()[j] by {}
    }
}

/// The cut of an over-long subject lies within the limit.
proof fn lemma_subject_cut(sub: Seq<char>)
    requires
        sub.len() > SUBJECT_LIMIT,
    ensures
        0 <= subject_cut(sub) <= SUBJECT_LIMIT,
{
    lemma_last_index(sub.take(SUBJECT_LIMIT as int), ' ');
}

/// The largest character boundary of `b` that is not after `i`.
pub open spec fn boundary_at_or_before(b: Seq<u8>, i: int) -> int
    decreases i,
{
    if i <= 0 {
        0
    } else if is_char_boundary(b, i) {
        i
    } else {
        boundary_at_or_before(b, i - 1)
    }
}

pub proof fn lemma_boundary_at_or_before(b: Seq<u8>, i: int)
    requires
        valid_utf8(b),
    ensures
        0 <= boundary_at_or_before(b, i),
        i >= 0 ==> boundary_at_or_before(b, i) <= i,
        is_char_boundary(b, boundary_at_or_before(b, i)),
        forall|j: int| boundary_at_or_before(b, i) < j <= i ==> !#[trigger] is_char_boundary(b, j),
    decreases i,
{
    if i > 0 && !is_char_boundary(b, i) {
        lemma_boundary_at_or_before(b, i - 1);
    }
}

/// The largest character boundary of `s` that is not after `max_byte`, or
/// the length of `s` when it is not longer than `max_byte`.
pub fn char_boundary(s: &str, max_byte: usize) -> (r: usize)
    requires
        s.spec_bytes().len() <= usize::MAX,
    ensures
        r == (if s.spec_bytes().len() <= max_byte {
            s.spec_bytes().len() as int
        } else {
            boundary_at_or_before(s.spec_bytes(), max_byte as int)
        }),
        is_char_boundary(s.spec_bytes(), r as int),
{
    proof {
        is_char_boundary_start_end_of_seq(s.spec_bytes());
    }
    let len = s.len();
    if len <= max_byte {
        return len;
    }
    let mut b: usize = max_byte;
    while !s.is_char_boundary(b)
        invariant
            b <= max_byte,
            b < s.spec_bytes().len(),
            boundary_at_or_before(s.spec_bytes(), max_byte as int) == boundary_at_or_before(s.spec_bytes(), b as int),
            is_char_boundary(s.spec_bytes(), 0),
        decreases b,
    {
        b = b - 1;
    }
    b
}


/// Index of the first `x` in `v`.
fn find_char(v: &Vec<char>, x: char) -> (r: Option<usize>)
    ensures
        match first_index(v@, x) {
            Some(i) => r == Some(i as usize),
            None => r is None,
        },
{
    let mut i: usize = 0;
    while i < v.len()
        invariant
            i <= v@.len(),
            first_index(v@.take(i as int), x) is None,
        decreases v.len() - i,
    {
        assert(v@.take(i + 1).drop_last() =~= v@.take(i as int));
        if v[i] == x {
            proof {
                lemma_first_index(v@, x);
                lemma_first_index(v@.take(i as int), x);
                let f = first_index(v@, x);
                if f != Some(i as int) {
                    let k = f->0;
                    assert(v@.take(i as int)[k] == x);
                }
            }
            return Some(i);
        }
        i = i + 1;
    }
    assert(v@.take(v@.len() as int) =~= v@);
    None
}

/// Index of the last `x` among the first `end` characters of `v`.
fn rfind_char(v: &Vec<char>, end: usize, x: char) -> (r: Option<usize>)
    requires
        end <= v@.len(),
    ensures
        match last_index(v@.take(end as int), x) {
            Some(i) => r == Some(i as usize),
            None => r is None,
        },
{
    let mut i: usize = end;
    while i > 0
        invariant
            i <= end <= v@.len(),
            last_index(v@.take(end as int), x) == last_index(v@.take(i as int), x),
        decreases i,
    {
        assert(v@.take(i as int).drop_last() =~= v@.take(i - 1));
        if v[i - 1] == x {
            return Some(i - 1);
        }
        i = i - 1;
    }
    None
}

/// Where the subject `v[..n]` is cut to respect the subject limit.
fn cut_point(v: &Vec<char>, n: usize) -> (r: usize)
    requires
        SUBJECT_LIMIT < n <= v@.len(),
    ensures
        r == subject_cut(v@.take(n as int)),
        r <= SUBJECT_LIMIT,
{
    proof {
        lemma_subject_cut(v@.take(n as int));
        assert(v@.take(n as int).take(SUBJECT_LIMIT as int) =~= v@.take(SUBJECT_LIMIT as int));
    }
    match rfind_char(v, SUBJECT_LIMIT, ' ') {
        Some(i) => i,
        None => SUBJECT_LIMIT,
    }
}

/// Cuts the first line of `message` to at most `SUBJECT_LIMIT` characters,
/// preferably at a space; the rest of the message is kept.
pub fn truncate_subject(message: &mut String)
    ensures
        final(message)@ == truncated_subject(old(message)@),
{
    let chars = strings::chars_of(message.as_str());
    match find_char(&chars, '\n') {
        Some(n) => {
            proof {
                lemma_first_index(chars@, '\n');
            }
            if n > SUBJECT_LIMIT {
                let cut = cut_point(&chars, n);
                let mut out = strings::slice_chars(&chars, 0, cut);
                let rest = strings::slice_chars(&chars, n, chars.len());
                strings::append_chars(&mut out, &rest);
                assert(out@ =~= chars@.take(cut as int) + chars@.skip(n as int));
                *message = strings::string_from(&out);
            }
        },
        None => {
            if chars.len() > SUBJECT_LIMIT {
                let cut = cut_point(&chars, chars.len());
                assert(chars@.take(chars@.len() as int) =~= chars@);
                let out = strings::slice_chars(&chars, 0, cut);
                assert(out@ =~= chars@.take(cut as int));
                *message = strings::string_from(&out);
            }
        },
    }
}

/// Law: after truncation the first line has at most `SUBJECT_LIMIT`
/// characters and begins the original first line; everything from the first
/// line break on is unchanged; a first line within the limit is kept whole.
pub proof fn law_subject_fits(m: Seq<char>)
    ensures
        match first_index(truncated_subject(m), '\n') {
            Some(n) => {
                &&& n <= SUBJECT_LIMIT
                &&& truncated_subject(m).take(n) == m.take(n)
                &&& first_index(m, '\n') matches Some(k) && truncated_subject(m).skip(n) == m.skip(k)
            },
            None => {
                &&& truncated_subject(m).len() <= SUBJECT_LIMIT
                &&& truncated_subject(m) == m.take(truncated_subject(m).len() as int)
                &&& first_index(m, '\n') is None
            },
        },
        match first_index(m, '\n') {
            Some(k) => k <= SUBJECT_LIMIT ==> truncated_subject(m) == m,
            None => m.len() <= SUBJECT_LIMIT ==> truncated_subject(m) == m,
        },
{
    let t = truncated_subject(m);
    lemma_first_index(m, '\n');
    lemma_first_index(t, '\n');
    match first_index(m, '\n') {
        Some(n) => {
            if n > SUBJECT_LIMIT {
                let sub = m.take(n);
                lemma_subject_cut(sub);
                let cut = subject_cut(sub);
                assert(t[cut] == '\n');
                assert forall|j: int| 0 <= j < cut implies t[j] != '\n' by {
                    assert(t[j] == m[j]);
                }
                assert(t.take(cut) =~= m.take(cut));
                assert(t.skip(cut) =~= m.skip(n));
            }
        },
        None => {
            if m.len() > SUBJECT_LIMIT {
                lemma_subject_cut(m);
                assert forall|j: int| 0 <= j < t.len() implies t[j] != '\n' by {
                    assert(t[j] == m[j]);
                }
            }
            assert(t =~= m.take(t.len() as int));
        },
    }
}

/// Law: truncating the subject a second time changes nothing.
pub proof fn law_truncate_idempotent(m: Seq<char>)
    ensures
        truncated_subject(truncated_subject(m)) == truncated_subject(m),
{
    law_subject_fits(m);
    law_subject_fits(truncated_subject(m));
}

/// The text after `Next version:` on a line that announces a version.
pub open spec fn version_rest(line: Seq<char>) -> Option<Seq<char>> {
    strings::strip_prefix(strings::trim(line), "Next version:"@)
}

/// A version text of three dot-separated parts made only of digits and dots.
pub open spec fn is_version_text(clean: Seq<char>) -> bool {
    &&& strings::split_on(clean, '.').len() == 3
    &&& forall|i: int| 0 <= i < clean.len() ==> strings::is_digit(#[trigger] clean[i]) || clean[i] == '.'
}

/// The version announced after `Next version:`, written `vX.Y.Z`, if it is well formed.
pub open spec fn version_candidate(rest: Seq<char>) -> Option<Seq<char>> {
    let ver = strings::trim(rest);
    let clean = match strings::strip_prefix(ver, seq!['v']) {
        Some(c) => c,
        None => ver,
    };
    if is_version_text(clean) {
        Some(seq!['v'] + clean)
    } else {
        None
    }
}

/// The lines that do not announce a version, in order.
pub open spec fn message_lines(ls: Seq<Seq<char>>) -> Seq<Seq<char>>
    decreases ls.len(),
{
    if ls.len() == 0 {
        Seq::empty()
    } else if version_rest(ls.last()) is Some {
        message_lines(ls.drop_last())
    } else {
        message_lines(ls.drop_last()).push(ls.last())
    }
}

/// The last well-formed announced version.
pub open spec fn found_version(ls: Seq<Seq<char>>) -> Option<Seq<char>>
    decreases ls.len(),
{
    if ls.len() == 0 {
        None
    } else {
        match version_rest(ls.last()) {
            Some(rest) => match version_candidate(rest) {
                Some(v) => Some(v),
                None => found_version(ls.drop_last()),
            },
            None => found_version(ls.drop_last()),
        }
    }
}

/// The commit message of a response: its lines without version lines, trimmed.
pub open spec fn response_message(raw: Seq<char>) -> Seq<char> {
    strings::trim(strings::join(message_lines(strings::lines(raw)), seq!['\n']))
}

/// The version a response suggests.
pub open spec fn response_version(raw: Seq<char>) -> Option<Seq<char>> {
    found_version(strings::lines(raw))
}

/// Whether `clean` is three dot-separated parts of digits and dots.
fn check_version_text(clean: &Vec<char>) -> (r: bool)
    ensures
        r == is_version_text(clean@),
{
    let parts = strings::split_chars(clean, '.');
    if parts.len() != 3 {
        return false;
    }
    let mut i: usize = 0;
    while i < clean.len()
        invariant
            i <= clean@.len(),
            forall|j: int| 0 <= j < i ==> strings::is_digit(#[trigger] clean@[j]) || clean@[j] == '.',
        decreases clean.len() - i,
    {
        let c = clean[i];
        if !((c >= '0' && c <= '9') || c == '.') {
            return false;
        }
        i = i + 1;
    }
    true
}

/// Splits a response `<subject>\n<body>\nNext version: <ver>` into the
/// message and the suggested version `vX.Y.Z`.
pub fn parse_versioned_response(raw: &str) -> (r: (String, Option<String>))
    ensures
        r.0@ == response_message(raw@),
        match response_version(raw@) {
            Some(v) => r.1 matches Some(x) && x@ == v,
            None => r.1 is None,
        },
{
    let chars = strings::chars_of(raw);
    let ls = strings::lines_of(&chars);
    let prefix = strings::chars_of("Next version:");
    let vee: Vec<char> = vec!['v'];
    let mut kept: Vec<Vec<char>> = Vec::new();
    let mut version: Option<Vec<char>> = None;
    let mut i: usize = 0;
    while i < ls.len()
        invariant
            i <= ls@.len(),
            prefix@ == "Next version:"@,
            vee@ == seq!['v'],
            strings::views(kept@) == message_lines(strings::views(ls@).take(i as int)),
            match found_version(strings::views(ls@).take(i as int)) {
                Some(v) => version matches Some(x) && x@ == v,
                None => version is None,
            },
        decreases ls.len() - i,
    {
        let line = &ls[i];
        let ghost before = strings::views(ls@).take(i as int);
        let ghost now = strings::views(ls@).take(i + 1);
        assert(now.drop_last() =~= before);
        assert(now.last() == line@);
        let trimmed = strings::trim_chars(line);
        match strings::strip_prefix_chars(&trimmed, &prefix) {
            Some(rest) => {
                let ver = strings::trim_chars(&rest);
                let clean = match strings::strip_prefix_chars(&ver, &vee) {
                    Some(c) => c,
                    None => ver,
                };
                if check_version_text(&clean) {
                    let mut v: Vec<char> = vec!['v'];
                    strings::append_chars(&mut v, &clean);
                    version = Some(v);
                }
            },
            None => {
                let ghost old_kept = strings::views(kept@);
                let copy = strings::slice_chars(line, 0, line.len());
                assert(copy@ =~= line@);
                kept.push(copy);
                assert(strings::views(kept@) =~= old_kept.push(line@));
            },
        }
        i = i + 1;
    }
    assert(strings::views(ls@).take(ls@.len() as int) =~= strings::views(ls@));
    let sep: Vec<char> = vec!['\n'];
    assert(sep@ =~= seq!['\n']);
    let joined = strings::join_chars(&kept, &sep);
    let message = strings::trim_chars(&joined);
    let suggested = match version {
        Some(v) => Some(strings::string_from(&v)),
        None => None,
    };
    (strings::string_from(&message), suggested)
}

/// What the model produced: the message and, when asked for, the next version.
pub struct GenerationResult {
    pub message: String,
    pub suggested_version: Option<String>,
}

/// Why generation failed after the model ran.
#[derive(Debug)]
pub enum GenerationError {
    /// The model command exited with an error; its trimmed error output.
    Failed(String),
    /// The model answered nothing.
    Empty,
}

/// The text of a generation error.
pub open spec fn generation_error_text(e: GenerationError) -> Seq<char> {
    match e {
        GenerationError::Failed(stderr) => "opencode returned an error: "@ + stderr@,
        GenerationError::Empty => "opencode returned an empty response"@,
    }
}

impl GenerationError {
    /// The error text shown to the user.
    pub fn message(&self) -> (s: String)
        ensures
            s@ == generation_error_text(*self),
    {
        match self {
            GenerationError::Failed(stderr) => {
                let mut s = "opencode returned an error: ".to_string();
                s.append(stderr.as_str());
                s
            },
            GenerationError::Empty => "opencode returned an empty response".to_string(),
        }
    }
}

/// The instruction that opens every prompt.
pub open spec fn instruction() -> Seq<char> {
    "Given these diffs (staged then unstaged), write a short imperative English subject line (<=90 chars) followed by a blank line and a detailed description body explaining what changed and why. No quotes."@
}

/// What the prompt asks about the next version.
pub open spec fn version_request() -> Seq<char> {
    "\nAnalyze the changes and determine the next semantic version:\n- Breaking changes / major rewrites -> bump major (e.g. v1 -> v2.0.0)\n- New features -> bump minor (e.g. v1.0 -> v1.1.0)\n- Bug fixes / refactors / chores -> bump patch (e.g. v1.0.0 -> v1.0.1)\nOutput format:\n<subject line>\n<description body>\nNext version: <version>\n\n"@
}

/// The prompt for a diff: the instruction, for a versioned project the
/// current version and the version request, then the diff, with a note when
/// the diff was cut short.
pub open spec fn prompt_text(diff: Seq<char>, truncated: bool, current_version: Option<Seq<char>>) -> Seq<char> {
    match current_version {
        Some(ver) => {
            let head = instruction() + "\n\nCurrent version: "@ + ver + version_request();
            if truncated {
                head + "\n\nDiffs (truncated):\n"@ + diff
                    + "\n\nNote: diff was truncated. Output only the commit message and suggested version anyway."@
            } else {
                head + "\n\nDiffs:\n"@ + diff
            }
        },
        None => if truncated {
            instruction() + "\n\nDiffs (truncated):\n"@ + diff
                + "\n\nNote: diff was truncated. Output only the commit message anyway."@
        } else {
            instruction() + "\n\nDiffs:\n"@ + diff
        },
    }
}

/// Law: the prompt opens with the instruction and carries the diff verbatim.
/// An untruncated diff ends the prompt, right after its `Diffs:` header; a
/// truncated one follows `Diffs (truncated):` and only the truncation note
/// comes after it. A known current version is quoted, with the request for
/// the next version; without one the prompt is the instruction and the diff.
pub proof fn law_prompt_carries_diff(d: Seq<char>, t: bool, v: Option<Seq<char>>)
    ensures
        strings::starts_with(prompt_text(d, t, v), instruction()),
        strings::contains_seq(prompt_text(d, t, v), d),
        !t ==> strings::ends_with(prompt_text(d, t, v), "\n\nDiffs:\n"@ + d),
        t && v is None ==> strings::ends_with(
            prompt_text(d, t, v),
            "\n\nDiffs (truncated):\n"@ + d + "\n\nNote: diff was truncated. Output only the commit message anyway."@,
        ),
        t && v is Some ==> strings::ends_with(
            prompt_text(d, t, v),
            "\n\nDiffs (truncated):\n"@ + d
                + "\n\nNote: diff was truncated. Output only the commit message and suggested version anyway."@,
        ),
        v matches Some(ver) ==> strings::contains_seq(prompt_text(d, t, v), "\n\nCurrent version: "@ + ver)
            && strings::contains_seq(prompt_text(d, t, v), version_request()),
        v is None && !t ==> prompt_text(d, t, v) == instruction() + "\n\nDiffs:\n"@ + d,
{
    let p = prompt_text(d, t, v);
    let i = instruction();
    let e = Seq::<char>::empty();
    let plain = "\n\nDiffs:\n"@;
    let cut = "\n\nDiffs (truncated):\n"@;
    match v {
        Some(ver) => {
            let cv = "\n\nCurrent version: "@ + ver;
            let head = i + cv + version_request();
            let note = "\n\nNote: diff was truncated. Output only the commit message and suggested version anyway."@;
            let tail = if t { cut + d + note } else { plain + d };
            assert(p =~= head + tail);
            assert(p =~= i + (cv + version_request() + tail) + e);
            strings::lemma_pieces(i, cv + version_request() + tail, e);
            assert(p =~= i + cv + (version_request() + tail));
            strings::lemma_pieces(i, cv, version_request() + tail);
            assert(p =~= (i + cv) + version_request() + tail);
            strings::lemma_pieces(i + cv, version_request(), tail);
            if t {
                assert(p =~= (head + cut) + d + note);
                strings::lemma_pieces(head + cut, d, note);
                assert(p =~= head + (cut + d + note));
                strings::lemma_pieces(head, cut + d + note, e);
            } else {
                assert(p =~= (head + plain) + d + e);
                strings::lemma_pieces(head + plain, d, e);
                assert(p =~= head + (plain + d));
                strings::lemma_pieces(head, plain + d, e);
            }
        },
        None => {
            let note = "\n\nNote: diff was truncated. Output only the commit message anyway."@;
            let tail = if t { cut + d + note } else { plain + d };
            assert(p =~= i + tail + e);
            strings::lemma_pieces(i, tail, e);
            if t {
                assert(p =~= (i + cut) + d + note);
                strings::lemma_pieces(i + cut, d, note);
                assert(p =~= i + (cut + d + note));
                strings::lemma_pieces(i, cut + d + note, e);
            } else {
                assert(p =~= (i + plain) + d + e);
                strings::lemma_pieces(i + plain, d, e);
                assert(p =~= i + (plain + d));
                strings::lemma_pieces(i, plain + d, e);
            }
        },
    }
}

/// Builds the prompt sent to the model.
pub fn build_prompt(diff: &str, truncated: bool, current_version: Option<&str>) -> (p: String)
    ensures
        p@ == prompt_text(diff@, truncated, match current_version {
            Some(v) => Some(v@),
            None => None,
        }),
{
    let mut p = "Given these diffs (staged then unstaged), write a short imperative English subject line (<=90 chars) followed by a blank line and a detailed description body explaining what changed and why. No quotes.".to_string();
    match current_version {
        Some(ver) => {
            p.append("\n\nCurrent version: ");
            p.append(ver);
            p.append("\nAnalyze the changes and determine the next semantic version:\n- Breaking changes / major rewrites -> bump major (e.g. v1 -> v2.0.0)\n- New features -> bump minor (e.g. v1.0 -> v1.1.0)\n- Bug fixes / refactors / chores -> bump patch (e.g. v1.0.0 -> v1.0.1)\nOutput format:\n<subject line>\n<description body>\nNext version: <version>\n\n");
            if truncated {
                p.append("\n\nDiffs (truncated):\n");
                p.append(diff);
                p.append("\n\nNote: diff was truncated. Output only the commit message and suggested version anyway.");
            } else {
                p.append("\n\nDiffs:\n");
                p.append(diff);
            }
        },
        None => {
            if truncated {
                p.append("\n\nDiffs (truncated):\n");
                p.append(diff);
                p.append("\n\nNote: diff was truncated. Output only the commit message anyway.");
            } else {
                p.append("\n\nDiffs:\n");
                p.append(diff);
            }
        },
    }
    p
}

/// The message and version made of a model's answer `raw` (already trimmed),
/// before the subject is cut.
pub open spec fn answer_parts(raw: Seq<char>, versioned: bool) -> (Seq<char>, Option<Seq<char>>) {
    if versioned {
        (response_message(raw), response_version(raw))
    } else {
        (raw, None)
    }
}

/// Turns what the model command returned into the generated message: a
/// failed command or an empty answer is an error; otherwise the answer is
/// split into message and version (when a current version was given) and the
/// subject is cut to `SUBJECT_LIMIT` characters.
pub fn finish_generation(success: bool, stdout: &[u8], stderr: &[u8], current_version: Option<&str>) -> (r:
    Result<GenerationResult, GenerationError>)
    ensures
        !success ==> (r matches Err(GenerationError::Failed(e)) && e@ == strings::trim(strings::utf8_lossy(stderr@))),
        success && strings::trim(strings::utf8_lossy(stdout@)).len() == 0 ==> r matches Err(GenerationError::Empty),
        success && strings::trim(strings::utf8_lossy(stdout@)).len() > 0 ==> (r matches Ok(g) && {
            let parts = answer_parts(strings::trim(strings::utf8_lossy(stdout@)), current_version is Some);
            &&& g.message@ == truncated_subject(parts.0)
            &&& match parts.1 {
                Some(v) => g.suggested_version matches Some(x) && x@ == v,
                None => g.suggested_version is None,
            }
        }),
{
    if !success {
        let err = strings::decode_lossy(stderr);
        let chars = strings::chars_of(err.as_str());
        let trimmed = strings::trim_chars(&chars);
        return Err(GenerationError::Failed(strings::string_from(&trimmed)));
    }
    let out = strings::decode_lossy(stdout);
    let chars = strings::chars_of(out.as_str());
    let trimmed = strings::trim_chars(&chars);
    if trimmed.len() == 0 {
        return Err(GenerationError::Empty);
    }
    let raw = strings::string_from(&trimmed);
    let (mut message, suggested_version) = if current_version.is_some() {
        parse_versioned_response(raw.as_str())
    } else {
        (raw, None)
    };
    truncate_subject(&mut message);
    Ok(GenerationResult { message, suggested_version })
}

/// The model used when none is configured.
pub open spec fn default_model() -> Seq<char> {
    "opencode/deepseek-v4-flash-free"@
}

/// The model to ask: the configured one, else `default_model()`.
pub fn model_name(setting: Option<String>) -> (m: String)
    ensures
        m@ == match setting {
            Some(s) => s@,
            None => default_model(),
        },
{
    match setting {
        Some(s) => s,
        None => "opencode/deepseek-v4-flash-free".to_string(),
    }
}

} // verus!
