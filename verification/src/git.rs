//! What the repository tells about the staged changes and the project, as plain
//! values, and the decisions taken on them.
use vstd::prelude::*;
use vstd::utf8::*;
use crate::config::{opt_view, strings_view};
use crate::text::{first_lines, has_char, join, lemma_lines_join, lines, take_at_most};

verus! {

broadcast use vstd::seq::group_seq_axioms;

/// How many of the newest commits are looked at for context.
pub const RECENT_COMMIT_LIMIT: usize = 10;

/// How many lines of the README are kept as context.
pub const README_LINE_LIMIT: usize = 50;

/// A changed file: its path and what happened to it.
pub struct FileChange {
    pub path: String,
    pub status: String,
}

/// The staged changes: the patch text, the changed files and the line counts.
pub struct StagedChanges {
    pub diff_text: String,
    pub files_changed: Vec<FileChange>,
    pub insertions: usize,
    pub deletions: usize,
}

/// What is known of the project around the change.
pub struct ProjectContext {
    pub project_name: Option<String>,
    pub readme_content: Option<String>,
    pub package_json: Option<String>,
    pub cargo_toml: Option<String>,
    pub recent_commits: Vec<String>,
}

/// The index flags of one entry of the repository's status.
pub struct IndexStatus {
    pub index_new: bool,
    pub index_modified: bool,
    pub index_deleted: bool,
    pub index_renamed: bool,
    pub index_typechange: bool,
}

/// What a diff says happened to a file.
#[derive(Clone, Copy, PartialEq, Eq, Structural, Debug)]
pub enum DeltaKind {
    Added,
    Deleted,
    Modified,
    Renamed,
    Other,
}

/// A path as the repository reports it: absent, present but not Unicode, or text.
pub enum RawPath {
    Missing,
    NotUnicode,
    Unicode(String),
}

/// Whether an entry has a change in the index.
pub open spec fn staged(e: IndexStatus) -> bool {
    e.index_new || e.index_modified || e.index_deleted || e.index_renamed || e.index_typechange
}

/// Whether any of the status entries has a change in the index.
pub fn has_staged_changes(entries: &Vec<IndexStatus>) -> (b: bool)
    ensures
        b == exists|i: int| 0 <= i < entries@.len() && staged(#[trigger] entries@[i]),
{
    let n = entries.len();
    let mut i: usize = 0;
    while i < n
        invariant
            i <= n == entries@.len(),
            forall|j: int| 0 <= j < i ==> !staged(#[trigger] entries@[j]),
        decreases n - i,
    {
        let e = &entries[i];
        if e.index_new || e.index_modified || e.index_deleted || e.index_renamed
            || e.index_typechange {
            return true;
        }
        i = i + 1;
    }
    false
}

/// The word that names a kind of change.
pub open spec fn status_word(kind: DeltaKind) -> Seq<char> {
    match kind {
        DeltaKind::Added => "added"@,
        DeltaKind::Deleted => "deleted"@,
        DeltaKind::Modified => "modified"@,
        DeltaKind::Renamed => "renamed"@,
        DeltaKind::Other => "changed"@,
    }
}

/// The word that names a kind of change.
pub fn status_label(kind: DeltaKind) -> (s: String)
    ensures
        s@ == status_word(kind),
{
    match kind {
        DeltaKind::Added => "added".to_string(),
        DeltaKind::Deleted => "deleted".to_string(),
        DeltaKind::Modified => "modified".to_string(),
        DeltaKind::Renamed => "renamed".to_string(),
        DeltaKind::Other => "changed".to_string(),
    }
}

/// The path shown for a change: the new file's path when the diff has one, else the
/// old file's; `"unknown"` when the chosen path is absent or not Unicode.
pub open spec fn shown_path(new_file: RawPath, old_file: RawPath) -> Seq<char> {
    let chosen = match new_file {
        RawPath::Missing => old_file,
        _ => new_file,
    };
    match chosen {
        RawPath::Unicode(p) => p@,
        _ => "unknown"@,
    }
}

impl FileChange {
    /// The change of one file, from the paths and the kind that the diff reports.
    pub fn from_delta(new_file: RawPath, old_file: RawPath, kind: DeltaKind) -> (c: FileChange)
        ensures
            c.path@ == shown_path(new_file, old_file),
            c.status@ == status_word(kind),
    {
        let chosen = match new_file {
            RawPath::Missing => old_file,
            _ => new_file,
        };
        let path = match chosen {
            RawPath::Unicode(p) => p,
            _ => "unknown".to_string(),
        };
        FileChange { path, status: status_label(kind) }
    }
}

/// The text of one line of a patch: its bytes decoded when they are UTF-8, else nothing.
pub open spec fn line_text(bytes: Seq<u8>) -> Seq<char> {
    if valid_utf8(bytes) {
        decode_utf8(bytes)
    } else {
        Seq::empty()
    }
}

/// `std::str::from_utf8`: the bytes as text when they are valid UTF-8, and nothing
/// otherwise (the error is dropped). Claimed: the result is present exactly when the
/// bytes are valid UTF-8, and then its UTF-8 encoding is those bytes.
#[verifier::external_body]
fn str_from_utf8(bytes: &[u8]) -> (r: Option<&str>)
    ensures
        r is Some <==> valid_utf8(bytes@),
        r matches Some(s) ==> encode_utf8(s@) == bytes@,
{
    std::str::from_utf8(bytes).ok()
}

/// Appends one line of a patch to the patch text.
pub fn append_diff_line(diff_text: &mut String, content: &[u8])
    ensures
        final(diff_text)@ == old(diff_text)@ + line_text(content@),
{
    proof {
        broadcast use encode_utf8_decode_utf8;
    }
    match str_from_utf8(content) {
        Some(s) => {
            assert(s@ == decode_utf8(encode_utf8(s@)));
            diff_text.append(s);
        },
        None => {
            assert(old(diff_text)@ + Seq::<char>::empty() =~= old(diff_text)@);
        },
    }
}

/// An entry counts as staged exactly when at least one of its index flags is set:
/// each flag alone suffices, and an entry with none is not staged.
pub proof fn lemma_staged_flags(e: IndexStatus)
    ensures
        e.index_new ==> staged(e),
        e.index_modified ==> staged(e),
        e.index_deleted ==> staged(e),
        e.index_renamed ==> staged(e),
        e.index_typechange ==> staged(e),
        (!e.index_new && !e.index_modified && !e.index_deleted && !e.index_renamed
            && !e.index_typechange) ==> !staged(e),
{
}

/// Each kind of change has its own word: `added`, `deleted`, `modified`, `renamed`,
/// and `changed` for any other kind.
pub proof fn lemma_status_words()
    ensures
        status_word(DeltaKind::Added) == "added"@,
        status_word(DeltaKind::Deleted) == "deleted"@,
        status_word(DeltaKind::Modified) == "modified"@,
        status_word(DeltaKind::Renamed) == "renamed"@,
        status_word(DeltaKind::Other) == "changed"@,
{
}

/// The new file's path is shown when it is text; the old file's path is shown only
/// when the diff has no new path; a path that is not Unicode shows as `unknown`.
pub proof fn lemma_shown_path(new_path: String, old_file: RawPath)
    ensures
        shown_path(RawPath::Unicode(new_path), old_file) == new_path@,
        shown_path(RawPath::NotUnicode, old_file) == "unknown"@,
        shown_path(RawPath::Missing, old_file) == shown_path(old_file, RawPath::Missing),
        shown_path(RawPath::Missing, RawPath::Missing) == "unknown"@,
{
}

/// A line that is not valid UTF-8 adds nothing to the patch text.
pub proof fn lemma_invalid_line_adds_nothing(bytes: Seq<u8>)
    requires
        !valid_utf8(bytes),
    ensures
        line_text(bytes) == Seq::<char>::empty(),
{
}

/// Unreadable entries are skipped and readable ones kept in order: appending an
/// unreadable entry keeps the summaries, appending a readable one adds its summary.
pub proof fn lemma_present_steps<A>(s: Seq<Option<A>>, x: A)
    ensures
        present(s.push(None)) == present(s),
        present(s.push(Some(x))) == present(s).push(x),
        present(Seq::<Option<A>>::empty()) == Seq::<A>::empty(),
{
    assert(s.push(None).drop_last() =~= s);
    assert(s.push(Some(x)).drop_last() =~= s);
}

/// A line of valid UTF-8 enters the patch text unchanged: the text's encoding is the
/// line's bytes.
pub proof fn lemma_line_text_keeps_bytes(bytes: Seq<u8>)
    requires
        valid_utf8(bytes),
    ensures
        encode_utf8(line_text(bytes)) == bytes,
{
    decode_utf8_encode_utf8(bytes);
}

/// The values present in `s`, in order.
pub open spec fn present<A>(s: Seq<Option<A>>) -> Seq<A>
    decreases s.len(),
{
    if s.len() == 0 {
        Seq::empty()
    } else {
        let rest = present(s.drop_last());
        match s.last() {
            Some(a) => rest.push(a),
            None => rest,
        }
    }
}

/// The characters of each optional string of `v`.
pub open spec fn opt_strings_view(v: Seq<Option<String>>) -> Seq<Option<Seq<char>>> {
    v.map_values(|o: Option<String>| opt_view(o))
}

/// The summaries of the newest commits, from what the history walk gave for each of
/// its first entries (nothing where the commit or its summary could not be read).
pub fn recent_commits(entries: &Vec<Option<String>>) -> (r: Vec<String>)
    ensures
        strings_view(r@) == present(
            take_at_most(opt_strings_view(entries@), RECENT_COMMIT_LIMIT as int),
        ),
{
    let n = if entries.len() < RECENT_COMMIT_LIMIT {
        entries.len()
    } else {
        RECENT_COMMIT_LIMIT
    };
    let mut r: Vec<String> = Vec::new();
    let mut i: usize = 0;
    while i < n
        invariant
            i <= n <= entries@.len(),
            n == (if entries@.len() < RECENT_COMMIT_LIMIT {
                entries@.len()
            } else {
                RECENT_COMMIT_LIMIT as nat
            }),
            strings_view(r@) == present(opt_strings_view(entries@).take(i as int)),
        decreases n - i,
    {
        let ghost prev = r@;
        match &entries[i] {
            Some(s) => {
                r.push(s.clone());
            },
            None => {},
        }
        proof {
            let t = opt_strings_view(entries@).take(i + 1);
            assert(t.drop_last() =~= opt_strings_view(entries@).take(i as int));
            assert(strings_view(r@) =~= present(t));
        }
        i = i + 1;
    }
    proof {
        assert(take_at_most(opt_strings_view(entries@), RECENT_COMMIT_LIMIT as int)
            =~= opt_strings_view(entries@).take(n as int));
    }
    r
}

/// The first lines of a README, as kept for context.
pub fn readme_excerpt(content: &str) -> (r: String)
    ensures
        r@ == join(take_at_most(lines(content@), README_LINE_LIMIT as int), seq!['\n']),
{
    first_lines(content, README_LINE_LIMIT)
}

impl ProjectContext {
    /// The project's context from what was found: the work directory's name, the
    /// README's text, `package.json`, `Cargo.toml`, and the history walk's entries.
    pub fn from_sources(
        project_name: Option<String>,
        readme: Option<String>,
        package_json: Option<String>,
        cargo_toml: Option<String>,
        commit_entries: &Vec<Option<String>>,
    ) -> (ctx: ProjectContext)
        ensures
            ctx.project_name == project_name,
            ctx.package_json == package_json,
            ctx.cargo_toml == cargo_toml,
            readme is Some <==> ctx.readme_content is Some,
            readme matches Some(text) ==> ctx.readme_content->0@ == join(
                take_at_most(lines(text@), README_LINE_LIMIT as int),
                seq!['\n'],
            ),
            strings_view(ctx.recent_commits@) == present(
                take_at_most(opt_strings_view(commit_entries@), RECENT_COMMIT_LIMIT as int),
            ),
    {
        let readme_content = match readme {
            Some(text) => Some(readme_excerpt(text.as_str())),
            None => None,
        };
        ProjectContext {
            project_name,
            readme_content,
            package_json,
            cargo_toml,
            recent_commits: recent_commits(commit_entries),
        }
    }
}

/// The README excerpt is the beginning of the README when the README has no carriage
/// returns, and it is the whole README when, besides, the README has no more than
/// `README_LINE_LIMIT` lines and does not end with a line end.
pub proof fn lemma_readme_excerpt(content: Seq<char>)
    requires
        !has_char(content, '\r'),
    ensures
        join(take_at_most(lines(content), README_LINE_LIMIT as int), seq!['\n']).is_prefix_of(
            content,
        ),
        (lines(content).len() <= README_LINE_LIMIT && (content.len() == 0 || content.last()
            != '\n')) ==> join(take_at_most(lines(content), README_LINE_LIMIT as int), seq!['\n'])
            == content,
{
    lemma_lines_join(content, README_LINE_LIMIT as int);
}

/// At most `RECENT_COMMIT_LIMIT` summaries are kept.
pub proof fn lemma_recent_commits_bounded(entries: Seq<Option<Seq<char>>>)
    ensures
        present(take_at_most(entries, RECENT_COMMIT_LIMIT as int)).len() <= RECENT_COMMIT_LIMIT,
{
    lemma_present_len(take_at_most(entries, RECENT_COMMIT_LIMIT as int));
}

proof fn lemma_present_len<A>(s: Seq<Option<A>>)
    ensures
        present(s).len() <= s.len(),
    decreases s.len(),
{
    if s.len() > 0 {
        lemma_present_len(s.drop_last());
    }
}

/// When every entry of the history walk is readable, the summaries kept are those of
/// the first `RECENT_COMMIT_LIMIT` commits, in the walk's order.
pub proof fn lemma_recent_commits_all_readable(summaries: Seq<Seq<char>>)
    ensures
        present(take_at_most(summaries.map_values(|c: Seq<char>| Some(c)), RECENT_COMMIT_LIMIT as int))
            == take_at_most(summaries, RECENT_COMMIT_LIMIT as int),
{
    let t = take_at_most(summaries, RECENT_COMMIT_LIMIT as int);
    assert(take_at_most(summaries.map_values(|c: Seq<char>| Some(c)), RECENT_COMMIT_LIMIT as int)
        =~= t.map_values(|c: Seq<char>| Some(c)));
    lemma_present_all_some(t);
}

proof fn lemma_present_all_some(s: Seq<Seq<char>>)
    ensures
        present(s.map_values(|c: Seq<char>| Some(c))) == s,
    decreases s.len(),
{
    if s.len() > 0 {
        lemma_present_all_some(s.drop_last());
        assert(s.map_values(|c: Seq<char>| Some(c)).drop_last() =~= s.drop_last().map_values(
            |c: Seq<char>| Some(c),
        ));
        assert(s.drop_last().push(s.last()) =~= s);
    } else {
        assert(s =~= Seq::<Seq<char>>::empty());
    }
}

} // verus!
