//! Repository summary: combining the staged and unstaged diffs that were read
//! from a repository, and finding the project's current version.

use vstd::prelude::*;
use vstd::string::*;
use vstd::utf8::*;

use crate::ai;
use crate::semver;
use crate::semver::Version;
use crate::strings;
use crate::text;

verus! {

broadcast use vstd::string::group_string_axioms, vstd::utf8::encode_utf8_valid_utf8;

/// What the tool knows of the repository it runs in.
#[derive(Debug, Clone)]
pub struct RepoInfo {
    pub repo_path: String,
    pub branch: String,
    pub staged_count: usize,
    pub unstaged_count: usize,
    pub changed_files: Vec<String>,
    pub changed_statuses: Vec<String>,
    pub combined_diff: String,
    pub truncated: bool,
    pub has_changes: bool,
}

/// One changed file of a diff: its path and its status letter.
pub struct FileChange {
    pub path: String,
    pub status: String,
}

/// One side of the working-tree changes (staged or unstaged), as read from
/// the repository: the printed patch and one entry per changed file.
pub struct DiffSummary {
    pub text: String,
    pub changes: Vec<FileChange>,
}

/// The number of changed files and the patch text of one side.
pub open spec fn side(d: DiffSummary) -> (usize, Seq<char>) {
    (d.changes@.len() as usize, d.text@)
}

/// The byte budget for the combined diff when none is configured.
pub const DEFAULT_DIFF_CUTOFF: usize = 8192;

/// The note appended to a cut diff.
pub open spec fn truncation_note() -> Seq<char> {
    "\n... [diff truncated due to size]"@
}

/// (path, status) pairs of a change list.
pub open spec fn change_views(c: Seq<FileChange>) -> Seq<(Seq<char>, Seq<char>)> {
    c.map_values(|f: FileChange| (f.path@, f.status@))
}

/// Some entry of `m` has path `p`.
pub open spec fn has_path(m: Seq<(Seq<char>, Seq<char>)>, p: Seq<char>) -> bool {
    exists|i: int| 0 <= i < m.len() && (#[trigger] m[i]).0 == p
}

/// `acc` followed by the entries of `u` whose path is not yet listed, in order.
pub open spec fn merge_changes(acc: Seq<(Seq<char>, Seq<char>)>, u: Seq<(Seq<char>, Seq<char>)>) -> Seq<
    (Seq<char>, Seq<char>),
>
    decreases u.len(),
{
    if u.len() == 0 {
        acc
    } else {
        let m = merge_changes(acc, u.drop_last());
        if has_path(m, u.last().0) {
            m
        } else {
            m.push(u.last())
        }
    }
}

/// The header line of one side of the combined diff.
pub open spec fn diff_section(title: Seq<char>, count: usize, text: Seq<char>) -> Seq<char> {
    "===== "@ + title + " CHANGES ("@ + strings::decimal(count as nat) + " files) =====\n"@ + text
}

/// The staged diff (with a blank line after it) followed by the unstaged
/// diff, each under a header, an empty side left out.
pub open spec fn combined_text(staged: (usize, Seq<char>), unstaged: (usize, Seq<char>)) -> Seq<char> {
    (if staged.1.len() > 0 {
        diff_section("STAGED"@, staged.0, staged.1) + seq!['\n']
    } else {
        Seq::empty()
    }) + (if unstaged.1.len() > 0 {
        diff_section("UNSTAGED"@, unstaged.0, unstaged.1)
    } else {
        Seq::empty()
    })
}

/// The bytes of the combined diff shown and sent: when it is longer than
/// `cutoff` bytes, its longest prefix of whole characters within `cutoff`
/// bytes followed by the truncation note; else all of it.
pub open spec fn limited_bytes(combined: Seq<char>, cutoff: usize) -> Seq<u8> {
    let b = text::text_bytes(combined);
    if b.len() > cutoff {
        b.take(ai::boundary_at_or_before(b, cutoff as int)) + text::text_bytes(truncation_note())
    } else {
        b
    }
}

fn section(out: &mut Vec<char>, title: &str, count: usize, text: &str)
    ensures
        final(out)@ == old(out)@ + diff_section(title@, count, text@),
{
    let ghost start = out@;
    strings::append_chars(out, &strings::chars_of("===== "));
    strings::append_chars(out, &strings::chars_of(title));
    strings::append_chars(out, &strings::chars_of(" CHANGES ("));
    strings::push_decimal(out, count as u64);
    strings::append_chars(out, &strings::chars_of(" files) =====\n"));
    strings::append_chars(out, &strings::chars_of(text));
    assert(out@ =~= start + diff_section(title@, count, text@));
}

/// Whether some entry of `m` has the path `p`.
fn contains_path(m: &Vec<String>, p: &String) -> (r: bool)
    ensures
        r == exists|i: int| 0 <= i < m@.len() && (#[trigger] m@[i])@ == p@,
{
    let mut i: usize = 0;
    while i < m.len()
        invariant
            i <= m@.len(),
            forall|j: int| 0 <= j < i ==> (#[trigger] m@[j])@ != p@,
        decreases m.len() - i,
    {
        if m[i] == *p {
            return true;
        }
        i = i + 1;
    }
    false
}

/// (path, status) pairs of two parallel lists.
pub open spec fn pairs_of(files: Seq<String>, statuses: Seq<String>) -> Seq<(Seq<char>, Seq<char>)> {
    Seq::new(files.len(), |i: int| (files[i]@, statuses[i]@))
}

/// Builds the repository summary from the two sides of the changes that were
/// read from the repository: changed files (staged first, each path once
/// among the added unstaged ones), the combined diff cut to `cutoff_bytes`,
/// and whether anything changed.
pub fn assemble_repo_info(
    repo_path: String,
    branch: String,
    staged: &DiffSummary,
    unstaged: &DiffSummary,
    cutoff_bytes: usize,
) -> (r: RepoInfo)
    ensures
        r.repo_path == repo_path,
        r.branch == branch,
        r.staged_count == staged.changes@.len(),
        r.unstaged_count == unstaged.changes@.len(),
        r.changed_files@.len() == r.changed_statuses@.len(),
        pairs_of(r.changed_files@, r.changed_statuses@) == merge_changes(
            change_views(staged.changes@),
            change_views(unstaged.changes@),
        ),
        r.has_changes == (staged.changes@.len() > 0 || unstaged.changes@.len() > 0),
        r.truncated == (text::text_bytes(
            combined_text(side(*staged), side(*unstaged)),
        ).len() > cutoff_bytes),
        text::text_bytes(r.combined_diff@) == limited_bytes(
            combined_text(side(*staged), side(*unstaged)),
            cutoff_bytes,
        ),
{
    let mut files: Vec<String> = Vec::new();
    let mut statuses: Vec<String> = Vec::new();
    let ghost sv = change_views(staged.changes@);
    let ghost uv = change_views(unstaged.changes@);
    let mut i: usize = 0;
    while i < staged.changes.len()
        invariant
            i <= staged.changes@.len(),
            sv == change_views(staged.changes@),
            files@.len() == statuses@.len(),
            pairs_of(files@, statuses@) == sv.take(i as int),
        decreases staged.changes.len() - i,
    {
        let ghost before = pairs_of(files@, statuses@);
        files.push(staged.changes[i].path.clone());
        statuses.push(staged.changes[i].status.clone());
        assert(pairs_of(files@, statuses@) =~= before.push(sv[i as int]));
        assert(sv.take(i + 1) =~= sv.take(i as int).push(sv[i as int]));
        i = i + 1;
    }
    assert(sv.take(staged.changes@.len() as int) =~= sv);
    let mut k: usize = 0;
    assert(uv.take(0) =~= Seq::<(Seq<char>, Seq<char>)>::empty());
    while k < unstaged.changes.len()
        invariant
            k <= unstaged.changes@.len(),
            uv == change_views(unstaged.changes@),
            files@.len() == statuses@.len(),
            pairs_of(files@, statuses@) == merge_changes(sv, uv.take(k as int)),
        decreases unstaged.changes.len() - k,
    {
        let change = &unstaged.changes[k];
        let ghost m = pairs_of(files@, statuses@);
        assert(uv.take(k + 1).drop_last() =~= uv.take(k as int));
        assert(uv.take(k + 1).last() == (change.path@, change.status@));
        let present = contains_path(&files, &change.path);
        proof {
            if present {
                let j = choose|j: int| 0 <= j < files@.len() && (#[trigger] files@[j])@ == change.path@;
                assert(m[j].0 == change.path@);
            } else {
                assert forall|j: int| 0 <= j < m.len() implies (#[trigger] m[j]).0 != change.path@ by {
                    assert(files@[j]@ == m[j].0);
                }
            }
        }
        if !present {
            files.push(change.path.clone());
            statuses.push(change.status.clone());
            assert(pairs_of(files@, statuses@) =~= m.push((change.path@, change.status@)));
        }
        k = k + 1;
    }
    assert(uv.take(unstaged.changes@.len() as int) =~= uv);
    let staged_count = staged.changes.len();
    let unstaged_count = unstaged.changes.len();
    let has_changes = staged_count > 0 || unstaged_count > 0;
    let mut combined: Vec<char> = Vec::new();
    if text::text_len(&staged.text) > 0 {
        section(&mut combined, "STAGED", staged_count, staged.text.as_str());
        combined.push('\n');
    }
    let ghost first = combined@;
    if text::text_len(&unstaged.text) > 0 {
        section(&mut combined, "UNSTAGED", unstaged_count, unstaged.text.as_str());
    }
    proof {
        let c = combined_text(side(*staged), side(*unstaged));
        if staged.text@.len() == 0 {
            assert(text::text_bytes(staged.text@).len() == 0) by {
                assert(staged.text@ =~= Seq::<char>::empty());
            }
        }
        if staged.text@.len() > 0 {
            assert(text::text_bytes(staged.text@).len() > 0) by {
                assert(staged.text@ =~= seq![staged.text@[0]] + staged.text@.drop_first());
                text::lemma_encode_concat(seq![staged.text@[0]], staged.text@.drop_first());
                text::lemma_char_width(staged.text@[0]);
            }
        }
        if unstaged.text@.len() == 0 {
            assert(text::text_bytes(unstaged.text@).len() == 0) by {
                assert(unstaged.text@ =~= Seq::<char>::empty());
            }
        }
        if unstaged.text@.len() > 0 {
            assert(text::text_bytes(unstaged.text@).len() > 0) by {
                assert(unstaged.text@ =~= seq![unstaged.text@[0]] + unstaged.text@.drop_first());
                text::lemma_encode_concat(seq![unstaged.text@[0]], unstaged.text@.drop_first());
                text::lemma_char_width(unstaged.text@[0]);
            }
        }
        assert(combined@ =~= c);
    }
    let whole = strings::string_from(&combined);
    let total = text::text_len(&whole);
    let truncated = total > cutoff_bytes;
    let combined_diff = if truncated {
        let all = whole.as_str();
        let end = ai::char_boundary(all, cutoff_bytes);
        let (kept, _) = all.split_at(end);
        let mut cut = kept.to_string();
        cut.append("\n... [diff truncated due to size]");
        proof {
            text::lemma_encode_concat(kept@, truncation_note());
        }
        cut
    } else {
        whole
    };
    RepoInfo {
        repo_path,
        branch,
        staged_count,
        unstaged_count,
        changed_files: files,
        changed_statuses: statuses,
        combined_diff,
        truncated,
        has_changes,
    }
}

/// The bytes of each line of a vector of lines.
pub open spec fn byte_views(v: Seq<Vec<u8>>) -> Seq<Seq<u8>> {
    v.map_values(|l: Vec<u8>| l@)
}

/// The text of a printed patch: its lines in order, each line that is not
/// valid UTF-8 left out.
pub open spec fn readable_text(lines: Seq<Seq<u8>>) -> Seq<char>
    decreases lines.len(),
{
    if lines.len() == 0 {
        Seq::empty()
    } else {
        readable_text(lines.drop_last()) + if valid_utf8(lines.last()) {
            decode_utf8(lines.last())
        } else {
            Seq::empty()
        }
    }
}

/// The text of a patch printed line by line, leaving out the lines that are
/// not valid UTF-8.
pub fn patch_text(lines: &Vec<Vec<u8>>) -> (t: String)
    ensures
        t@ == readable_text(byte_views(lines@)),
{
    let mut out: Vec<char> = Vec::new();
    let mut i: usize = 0;
    while i < lines.len()
        invariant
            i <= lines@.len(),
            out@ == readable_text(byte_views(lines@).take(i as int)),
        decreases lines.len() - i,
    {
        let ghost t = byte_views(lines@).take(i + 1);
        assert(t.drop_last() =~= byte_views(lines@).take(i as int));
        assert(t.last() == lines@[i as int]@);
        match strings::utf8_text(lines[i].as_slice()) {
            Some(s) => strings::append_chars(&mut out, &strings::chars_of(s.as_str())),
            None => {},
        }
        i = i + 1;
    }
    assert(byte_views(lines@).take(lines@.len() as int) =~= byte_views(lines@));
    strings::string_from(&out)
}

/// The author of a commit: the configured name and e-mail, each defaulting
/// to "Commiter" and "commiter@local" when not configured.
pub fn signature_identity(name: Option<String>, email: Option<String>) -> (r: (String, String))
    ensures
        r.0@ == match name {
            Some(n) => n@,
            None => "Commiter"@,
        },
        r.1@ == match email {
            Some(e) => e@,
            None => "commiter@local"@,
        },
{
    let n = match name {
        Some(n) => n,
        None => "Commiter".to_string(),
    };
    let e = match email {
        Some(e) => e,
        None => "commiter@local".to_string(),
    };
    (n, e)
}

/// The diff byte budget: the configured value when it reads as a `usize`,
/// otherwise `DEFAULT_DIFF_CUTOFF`.
pub fn diff_cutoff(setting: Option<&str>) -> (n: usize)
    ensures
        n == match setting {
            Some(s) => match strings::parse_unsigned(s@, usize::MAX as nat) {
                Some(v) => v as usize,
                None => DEFAULT_DIFF_CUTOFF,
            },
            None => DEFAULT_DIFF_CUTOFF,
        },
{
    match setting {
        Some(s) => match strings::parse_usize(&strings::chars_of(s)) {
            Some(v) => v,
            None => DEFAULT_DIFF_CUTOFF,
        },
        None => DEFAULT_DIFF_CUTOFF,
    }
}

/// The version a tag name stands for: `X.Y.Z`, optionally after a `v`.
pub open spec fn tag_version(name: Seq<char>) -> Option<Version> {
    semver::parse_version(
        match strings::strip_prefix(name, seq!['v']) {
            Some(rest) => rest,
            None => name,
        },
    )
}

/// The greatest version among the tags that name one.
pub open spec fn latest_version(tags: Seq<Seq<char>>) -> Option<Version>
    decreases tags.len(),
{
    if tags.len() == 0 {
        None
    } else {
        match (latest_version(tags.drop_last()), tag_version(tags.last())) {
            (None, t) => t,
            (Some(a), None) => Some(a),
            (Some(a), Some(b)) => Some(if semver::version_lt(a, b) { b } else { a }),
        }
    }
}

/// The version a manifest line declares (`version = "X"` gives `vX`).
pub open spec fn manifest_line_version(line: Seq<char>) -> Option<Seq<char>> {
    match strings::strip_prefix(strings::trim(line), "version ="@) {
        Some(rest) => {
            let ver = strings::trim_matches(strings::trim_matches(strings::trim(rest), '"'), '\'');
            if ver.len() > 0 {
                Some(seq!['v'] + ver)
            } else {
                None
            }
        },
        None => None,
    }
}

/// The version declared by the first manifest line that declares one.
pub open spec fn manifest_version(ls: Seq<Seq<char>>) -> Option<Seq<char>>
    decreases ls.len(),
{
    if ls.len() == 0 {
        None
    } else {
        match manifest_version(ls.drop_last()) {
            Some(v) => Some(v),
            None => manifest_line_version(ls.last()),
        }
    }
}

/// The current version: the latest version tag as `vX.Y.Z`, else the
/// version declared in the manifest, else none.
pub open spec fn current_version(tags: Option<Seq<Seq<char>>>, manifest: Option<Seq<char>>) -> Option<Seq<char>> {
    match match tags {
        Some(t) => latest_version(t),
        None => None,
    } {
        Some(v) => Some(semver::version_text(v)),
        None => match manifest {
            Some(m) => manifest_version(strings::lines(m)),
            None => None,
        },
    }
}

/// The strings' texts.
pub open spec fn texts(v: Seq<String>) -> Seq<Seq<char>> {
    v.map_values(|s: String| s@)
}

/// The greatest version among the tag names.
pub fn latest_tag_version(tags: &Vec<String>) -> (r: Option<Version>)
    ensures
        r == latest_version(texts(tags@)),
{
    let mut best: Option<Version> = None;
    let mut i: usize = 0;
    let vee: Vec<char> = vec!['v'];
    while i < tags.len()
        invariant
            i <= tags@.len(),
            vee@ == seq!['v'],
            best == latest_version(texts(tags@).take(i as int)),
        decreases tags.len() - i,
    {
        let ghost t = texts(tags@).take(i + 1);
        assert(t.drop_last() =~= texts(tags@).take(i as int));
        assert(t.last() == tags@[i as int]@);
        let name = strings::chars_of(tags[i].as_str());
        let stripped = match strings::strip_prefix_chars(&name, &vee) {
            Some(rest) => rest,
            None => name,
        };
        let parsed = Version::parse(strings::string_from(&stripped).as_str());
        best = match (best, parsed) {
            (None, p) => p,
            (Some(a), None) => Some(a),
            (Some(a), Some(b)) => Some(if a < b { b } else { a }),
        };
        i = i + 1;
    }
    assert(texts(tags@).take(tags@.len() as int) =~= texts(tags@));
    best
}

/// The version declared in a manifest's text.
pub fn manifest_declared_version(content: &str) -> (r: Option<String>)
    ensures
        match manifest_version(strings::lines(content@)) {
            Some(v) => r matches Some(x) && x@ == v,
            None => r is None,
        },
{
    let ls = strings::lines_of(&strings::chars_of(content));
    let prefix = strings::chars_of("version =");
    let mut i: usize = 0;
    while i < ls.len()
        invariant
            i <= ls@.len(),
            prefix@ == "version ="@,
            strings::views(ls@) == strings::lines(content@),
            manifest_version(strings::views(ls@).take(i as int)) is None,
        decreases ls.len() - i,
    {
        let ghost t = strings::views(ls@).take(i + 1);
        assert(t.drop_last() =~= strings::views(ls@).take(i as int));
        assert(t.last() == ls@[i as int]@);
        let trimmed = strings::trim_chars(&ls[i]);
        match strings::strip_prefix_chars(&trimmed, &prefix) {
            Some(rest) => {
                let a = strings::trim_chars(&rest);
                let b = strings::trim_matches_chars(&a, '"');
                let ver = strings::trim_matches_chars(&b, '\'');
                if ver.len() > 0 {
                    let mut out: Vec<char> = vec!['v'];
                    strings::append_chars(&mut out, &ver);
                    proof {
                        let later = strings::views(ls@);
                        assert(out@ =~= seq!['v'] + ver@);
                        assert(manifest_line_version(t.last()) == Some(out@));
                        assert(manifest_version(t) == Some(out@));
                        lemma_manifest_version_prefix(later, i as int + 1);
                    }
                    return Some(strings::string_from(&out));
                }
            },
            None => {},
        }
        i = i + 1;
    }
    assert(strings::views(ls@).take(ls@.len() as int) =~= strings::views(ls@));
    None
}

/// Once a prefix of the lines declares a version, that is the version.
proof fn lemma_manifest_version_prefix(ls: Seq<Seq<char>>, k: int)
    requires
        0 <= k <= ls.len(),
        manifest_version(ls.take(k)) is Some,
    ensures
        manifest_version(ls) == manifest_version(ls.take(k)),
    decreases ls.len() - k,
{
    if k < ls.len() {
        assert(ls.take(k + 1).drop_last() =~= ls.take(k));
        lemma_manifest_version_prefix(ls, k + 1);
    } else {
        assert(ls.take(k) =~= ls);
    }
}

/// Finds the current version from the repository's tag names (if the
/// repository could be read) and the manifest text (if there is one):
/// `vX.Y.Z` for the latest version tag, else `vX` for the manifest's
/// `version = "X"` line.
pub fn detect_current_version(tags: Option<&Vec<String>>, manifest: Option<&str>) -> (r: Option<String>)
    ensures
        match current_version(
            match tags {
                Some(t) => Some(texts(t@)),
                None => None,
            },
            match manifest {
                Some(m) => Some(m@),
                None => None,
            },
        ) {
            Some(v) => r matches Some(x) && x@ == v,
            None => r is None,
        },
{
    if let Some(t) = tags {
        if let Some(v) = latest_tag_version(t) {
            return Some(v.to_string());
        }
    }
    match manifest {
        Some(m) => manifest_declared_version(m),
        None => None,
    }
}

/// Law: the tags decide first. When some tag names a version, the current
/// version is `vX.Y.Z` of a tagged version that no tag exceeds, whatever the
/// manifest says; only when no tag names a version does the manifest decide,
/// exactly as if there were no tags.
pub proof fn law_tag_version_wins(tags: Seq<Seq<char>>, manifest: Option<Seq<char>>)
    ensures
        (exists|i: int| 0 <= i < tags.len() && #[trigger] tag_version(tags[i]) is Some) ==> (current_version(
            Some(tags),
            manifest,
        ) matches Some(x) && exists|v: Version|
            {
                &&& x == #[trigger] semver::version_text(v)
                &&& exists|i: int| 0 <= i < tags.len() && tag_version(#[trigger] tags[i]) == Some(v)
                &&& forall|j: int|
                    0 <= j < tags.len() ==> (tag_version(#[trigger] tags[j]) matches Some(w) ==> !semver::version_lt(
                        v,
                        w,
                    ))
            }),
        (forall|i: int| 0 <= i < tags.len() ==> #[trigger] tag_version(tags[i]) is None) ==> current_version(
            Some(tags),
            manifest,
        ) == current_version(None, manifest),
{
    law_latest_is_greatest(tags);
    if exists|i: int| 0 <= i < tags.len() && #[trigger] tag_version(tags[i]) is Some {
        let i = choose|i: int| 0 <= i < tags.len() && #[trigger] tag_version(tags[i]) is Some;
        assert(latest_version(tags) is Some) by {
            if latest_version(tags) is None {
                assert(tag_version(tags[i]) is None);
            }
        }
        let v = latest_version(tags)->0;
        assert(current_version(Some(tags), manifest) == Some(semver::version_text(v)));
    }
    if forall|i: int| 0 <= i < tags.len() ==> #[trigger] tag_version(tags[i]) is None {
        if latest_version(tags) is Some {
            let v = latest_version(tags)->0;
            let j = choose|j: int| 0 <= j < tags.len() && tag_version(#[trigger] tags[j]) == Some(v);
            assert(tag_version(tags[j]) is None);
        }
    }
}

/// Law: each side of the changes stands in the combined diff on its own
/// account: a non-empty staged diff opens it under its header (followed by a
/// blank line), a non-empty unstaged diff closes it under its header, an
/// empty side adds nothing, and nothing else is added.
pub proof fn law_combined_sides(staged: (usize, Seq<char>), unstaged: (usize, Seq<char>))
    ensures
        staged.1.len() > 0 ==> strings::starts_with(
            combined_text(staged, unstaged),
            diff_section("STAGED"@, staged.0, staged.1) + seq!['\n'],
        ),
        unstaged.1.len() > 0 ==> strings::ends_with(
            combined_text(staged, unstaged),
            diff_section("UNSTAGED"@, unstaged.0, unstaged.1),
        ),
        combined_text(staged, unstaged).len() == (if staged.1.len() > 0 {
            diff_section("STAGED"@, staged.0, staged.1).len() + 1
        } else {
            0
        }) + (if unstaged.1.len() > 0 {
            diff_section("UNSTAGED"@, unstaged.0, unstaged.1).len()
        } else {
            0
        }),
        staged.1.len() == 0 && unstaged.1.len() > 0 ==> combined_text(staged, unstaged) == diff_section(
            "UNSTAGED"@,
            unstaged.0,
            unstaged.1,
        ),
        staged.1.len() > 0 && unstaged.1.len() == 0 ==> combined_text(staged, unstaged) == diff_section(
            "STAGED"@,
            staged.0,
            staged.1,
        ) + seq!['\n'],
        staged.1.len() == 0 && unstaged.1.len() == 0 ==> combined_text(staged, unstaged).len() == 0,
{
    let a = if staged.1.len() > 0 {
        diff_section("STAGED"@, staged.0, staged.1) + seq!['\n']
    } else {
        Seq::empty()
    };
    let b = if unstaged.1.len() > 0 {
        diff_section("UNSTAGED"@, unstaged.0, unstaged.1)
    } else {
        Seq::empty()
    };
    let e = Seq::<char>::empty();
    assert(combined_text(staged, unstaged) =~= a + b);
    assert(a + b =~= e + a + b);
    strings::lemma_pieces(e, a, b);
    strings::lemma_pieces(a, b, e);
    assert(e + a + b =~= a + b);
    assert(a + b + e =~= a + b);
    if staged.1.len() == 0 {
        assert(a + b =~= b);
    }
    if unstaged.1.len() == 0 {
        assert(a + b =~= a);
    }
}

/// Law: the manifest's version is the one declared by its first line that
/// declares one; when no line declares one there is none.
pub proof fn law_manifest_first_declaration(ls: Seq<Seq<char>>)
    ensures
        manifest_version(ls) matches Some(x) ==> exists|k: int|
            {
                &&& 0 <= k < ls.len()
                &&& manifest_line_version(#[trigger] ls[k]) == Some(x)
                &&& forall|j: int| 0 <= j < k ==> manifest_line_version(#[trigger] ls[j]) is None
            },
        manifest_version(ls) is None ==> forall|k: int| 0 <= k < ls.len() ==> manifest_line_version(#[trigger] ls[k]) is None,
    decreases ls.len(),
{
    if ls.len() > 0 {
        let init = ls.drop_last();
        law_manifest_first_declaration(init);
        assert forall|i: int| 0 <= i < init.len() implies #[trigger] init[i] == ls[i] by {}
        match manifest_version(init) {
            Some(x) => {
                let k = choose|k: int|
                    {
                        &&& 0 <= k < init.len()
                        &&& manifest_line_version(#[trigger] init[k]) == Some(x)
                        &&& forall|j: int| 0 <= j < k ==> manifest_line_version(#[trigger] init[j]) is None
                    };
                assert(ls[k] == init[k]);
                assert forall|j: int| 0 <= j < k implies manifest_line_version(#[trigger] ls[j]) is None by {
                    assert(ls[j] == init[j]);
                }
            },
            None => {
                let k = ls.len() - 1;
                assert(ls[k] == ls.last());
                assert forall|j: int| 0 <= j < k implies manifest_line_version(#[trigger] ls[j]) is None by {
                    assert(ls[j] == init[j]);
                }
                if manifest_version(ls) is None {
                    assert forall|j: int| 0 <= j < ls.len() implies manifest_line_version(#[trigger] ls[j]) is None by {
                        if j < k {
                            assert(ls[j] == init[j]);
                        }
                    }
                }
            },
        }
    }
}

/// Law: the latest version is the version of one of the tags, and no tag
/// names a later version.
pub proof fn law_latest_is_greatest(tags: Seq<Seq<char>>)
    ensures
        latest_version(tags) matches Some(v) ==> {
            &&& exists|i: int| 0 <= i < tags.len() && tag_version(#[trigger] tags[i]) == Some(v)
            &&& forall|i: int|
                0 <= i < tags.len() ==> (tag_version(#[trigger] tags[i]) matches Some(w) ==> !semver::version_lt(
                    v,
                    w,
                ))
        },
        latest_version(tags) is None ==> forall|i: int| 0 <= i < tags.len() ==> tag_version(#[trigger] tags[i]) is None,
    decreases tags.len(),
{
    if tags.len() > 0 {
        let init = tags.drop_last();
        law_latest_is_greatest(init);
        assert forall|i: int| 0 <= i < init.len() implies #[trigger] init[i] == tags[i] by {}
        if let Some(v) = latest_version(tags) {
            if let Some(a) = latest_version(init) {
                let j = choose|j: int| 0 <= j < init.len() && tag_version(#[trigger] init[j]) == Some(a);
                assert(tags[j] == init[j]);
            } else {
                assert(tags[tags.len() - 1] == tags.last());
            }
            assert forall|i: int| 0 <= i < tags.len() implies (tag_version(#[trigger] tags[i]) matches Some(w)
                ==> !semver::version_lt(v, w)) by {
                if i < tags.len() - 1 {
                    assert(tags[i] == init[i]);
                    semver::law_version_order(v, v, v);
                    if let Some(a) = latest_version(init) {
                        if let Some(w) = tag_version(tags[i]) {
                            semver::law_version_order(a, w, v);
                            semver::law_version_order(v, a, w);
                        }
                    }
                } else {
                    assert(tags[i] == tags.last());
                    if let Some(a) = latest_version(init) {
                        semver::law_version_order(a, v, v);
                    } else {
                        semver::law_version_order(v, v, v);
                    }
                }
            }
        } else {
            assert forall|i: int| 0 <= i < tags.len() implies tag_version(#[trigger] tags[i]) is None by {
                if i < tags.len() - 1 {
                    assert(tags[i] == init[i]);
                } else {
                    assert(tags[i] == tags.last());
                }
            }
        }
    }
}

/// Law: the changed-file list keeps the staged entries first and in order,
/// lists every unstaged path, and adds each unstaged path at most once and
/// only when it is not listed already; every added entry comes from the
/// unstaged side.
pub proof fn law_changed_files(acc: Seq<(Seq<char>, Seq<char>)>, u: Seq<(Seq<char>, Seq<char>)>)
    ensures
        merge_changes(acc, u).len() >= acc.len(),
        merge_changes(acc, u).take(acc.len() as int) == acc,
        forall|i: int| 0 <= i < u.len() ==> has_path(merge_changes(acc, u), #[trigger] u[i].0),
        forall|j: int|
            acc.len() <= j < merge_changes(acc, u).len() ==> !has_path(acc, (#[trigger] merge_changes(acc, u)[j]).0)
                && u.contains(merge_changes(acc, u)[j]),
        forall|j: int, k: int|
            acc.len() <= j < k < merge_changes(acc, u).len() ==> (#[trigger] merge_changes(acc, u)[j]).0
                != (#[trigger] merge_changes(acc, u)[k]).0,
    decreases u.len(),
{
    if u.len() > 0 {
        let u0 = u.drop_last();
        law_changed_files(acc, u0);
        let m0 = merge_changes(acc, u0);
        let m = merge_changes(acc, u);
        let x = u.last();
        assert forall|i: int| 0 <= i < u0.len() implies #[trigger] u0[i] == u[i] by {}
        assert forall|e| u0.contains(e) implies u.contains(e) by {
            let i = choose|i: int| 0 <= i < u0.len() && u0[i] == e;
            assert(u[i] == e);
        }
        if has_path(m0, x.0) {
            assert(m == m0);
        } else {
            assert(m == m0.push(x));
            assert(m.take(acc.len() as int) =~= m0.take(acc.len() as int));
            assert forall|p: Seq<char>| has_path(m0, p) implies has_path(m, p) by {
                let i = choose|i: int| 0 <= i < m0.len() && (#[trigger] m0[i]).0 == p;
                assert(m[i] == m0[i]);
            }
            assert(has_path(m, x.0)) by {
                assert(m[m.len() - 1] == x);
            }
            assert(u.contains(x)) by {
                assert(u[u.len() - 1] == x);
            }
            assert(!has_path(acc, x.0)) by {
                if has_path(acc, x.0) {
                    let i = choose|i: int| 0 <= i < acc.len() && (#[trigger] acc[i]).0 == x.0;
                    assert(m0.take(acc.len() as int)[i] == m0[i]);
                    assert(m0[i].0 == x.0);
                }
            }
            assert forall|j: int, k: int| acc.len() <= j < k < m.len() implies (#[trigger] m[j]).0 != (
            #[trigger] m[k]).0 by {
                if k == m.len() - 1 {
                    if m[j].0 == x.0 {
                        assert(m0[j] == m[j]);
                    }
                } else {
                    assert(m[j] == m0[j]);
                    assert(m[k] == m0[k]);
                }
            }
        }
        assert forall|i: int| 0 <= i < u.len() implies has_path(m, #[trigger] u[i].0) by {
            if i < u.len() - 1 {
                assert(u[i] == u0[i]);
                assert(has_path(m0, u0[i].0));
                if !has_path(m0, x.0) {
                    let t = choose|t: int| 0 <= t < m0.len() && (#[trigger] m0[t]).0 == u0[i].0;
                    assert(m[t] == m0[t]);
                }
            } else {
                if has_path(m0, x.0) {
                    assert(u[i] == x);
                }
            }
        }
    } else {
        assert(acc.take(acc.len() as int) =~= acc);
    }
}

/// Law: the diff that is shown and sent keeps within the byte budget: when
/// the combined diff is over `cutoff` bytes, what is kept of it is its
/// longest prefix of whole characters of at most `cutoff` bytes, and only the
/// truncation note follows.
pub proof fn law_diff_within_budget(combined: Seq<char>, cutoff: usize)
    ensures
        text::text_bytes(combined).len() <= cutoff ==> limited_bytes(combined, cutoff) == text::text_bytes(combined),
        text::text_bytes(combined).len() > cutoff ==> exists|k: int|
            {
                &&& 0 <= k <= cutoff
                &&& is_char_boundary(text::text_bytes(combined), k)
                &&& forall|j: int| k < j <= cutoff ==> !#[trigger] is_char_boundary(text::text_bytes(combined), j)
                &&& #[trigger] limited_bytes(combined, cutoff) == text::text_bytes(combined).take(k)
                    + text::text_bytes(truncation_note())
            },
{
    let b = text::text_bytes(combined);
    if b.len() > cutoff {
        ai::lemma_boundary_at_or_before(b, cutoff as int);
        let k = ai::boundary_at_or_before(b, cutoff as int);
        assert(limited_bytes(combined, cutoff) == b.take(k) + text::text_bytes(truncation_note()));
    }
}

} // verus!
