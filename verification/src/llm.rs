//! The request to the language model and the handling of its answers.
use vstd::prelude::*;
use crate::config::{default_max_tokens, opt_view, strings_view};
use crate::git::ProjectContext;
use crate::text::{
    byte_prefix, fits_at_char_boundary, lemma_byte_prefix, lemma_trim_piece_bounds, prefix_within_bytes,
    take_at_most, trim, trim_str,
};
use vstd::utf8::encode_utf8;

verus! {

broadcast use vstd::seq::group_seq_axioms;

/// How many bytes of the diff go into the prompt.
pub const DIFF_BYTE_LIMIT: usize = 3000;

/// How many bytes of the README excerpt go into the prompt.
pub const README_BYTE_LIMIT: usize = 500;

/// How many recent commits go into the prompt.
pub const PROMPT_COMMIT_LIMIT: usize = 5;

/// The prompt's opening, up to where the diff starts.
pub const PROMPT_HEAD: &'static str = "Generate a conventional commit message for the following git diff.

The message should:
- Follow conventional commits format (type: description)
- Be concise but descriptive
- Use appropriate type (feat, fix, docs, style, refactor, test, chore)
- Be written in present tense
- Not exceed 72 characters for the subject line

Git diff:
```
";

/// What closes the diff block.
pub const DIFF_CLOSE: &'static str = "\n```";

/// The heading of the project context.
pub const CONTEXT_HEADING: &'static str = "\n\nProject context:\n";

/// What comes before the project's name.
pub const PROJECT_LABEL: &'static str = "Project: ";

/// A line end.
pub const NEWLINE: &'static str = "\n";

/// What comes before the README excerpt.
pub const README_OPEN: &'static str = "\nREADME.md (excerpt):\n```\n";

/// What closes the README excerpt.
pub const README_CLOSE: &'static str = "\n```\n";

/// The heading of the recent commits.
pub const COMMITS_HEADING: &'static str = "\nRecent commits:\n";

/// What comes before each recent commit.
pub const BULLET: &'static str = "- ";

/// The prompt's last words.
pub const PROMPT_TAIL: &'static str = "\n\nGenerate only the commit message, no explanation:";

/// The instruction given to the model as the system.
pub const SYSTEM_PROMPT: &'static str = "You are an expert at writing conventional commit messages. Generate clear, descriptive commit messages following the conventional commits format.";

/// The error when the diff holds nothing but whitespace.
pub const NO_CHANGES_MESSAGE: &'static str = "No changes to analyze";

/// One message of a chat request.
pub struct ChatMessage {
    pub role: String,
    pub content: String,
}

/// A chat completion request, apart from its sampling temperature.
pub struct ChatRequest {
    pub model: String,
    pub messages: Vec<ChatMessage>,
    pub max_tokens: u16,
    pub n: usize,
}

/// Why no request was made.
#[derive(PartialEq, Eq, Structural, Debug, Clone, Copy)]
pub enum GenerateError {
    /// The diff holds nothing but whitespace.
    NoChanges,
}

impl GenerateError {
    /// The error's message.
    pub fn message(&self) -> (m: String)
        ensures
            m@ == NO_CHANGES_MESSAGE@,
    {
        NO_CHANGES_MESSAGE.to_string()
    }
}

/// The client's settings: the model, the API key and the limit on generated tokens.
pub struct LLMClient {
    model: String,
    api_key: String,
    max_tokens: u16,
}

/// A line per commit, each as `"- "`, the summary and a line end.
pub open spec fn commit_bullets(commits: Seq<Seq<char>>) -> Seq<char>
    decreases commits.len(),
{
    if commits.len() == 0 {
        Seq::empty()
    } else {
        commit_bullets(commits.drop_last()) + BULLET@ + commits.last() + NEWLINE@
    }
}

/// The line that names the project, when its name is known.
pub open spec fn name_line(ctx: ProjectContext) -> Seq<char> {
    match ctx.project_name {
        Some(name) => PROJECT_LABEL@ + name@ + NEWLINE@,
        None => Seq::empty(),
    }
}

/// The README block: the first `README_BYTE_LIMIT` bytes of the excerpt, fenced.
pub open spec fn readme_block(ctx: ProjectContext) -> Seq<char> {
    match ctx.readme_content {
        Some(readme) => README_OPEN@ + byte_prefix(readme@, README_BYTE_LIMIT as nat)
            + README_CLOSE@,
        None => Seq::empty(),
    }
}

/// The recent commits block: up to `PROMPT_COMMIT_LIMIT` of them, when there are any.
pub open spec fn commits_block(ctx: ProjectContext) -> Seq<char> {
    if ctx.recent_commits@.len() > 0 {
        COMMITS_HEADING@ + commit_bullets(
            take_at_most(strings_view(ctx.recent_commits@), PROMPT_COMMIT_LIMIT as int),
        )
    } else {
        Seq::empty()
    }
}

/// The project context part of the prompt.
pub open spec fn context_section(ctx: ProjectContext) -> Seq<char> {
    CONTEXT_HEADING@ + name_line(ctx) + readme_block(ctx) + commits_block(ctx)
}

/// The prompt for a diff and an optional project context.
pub open spec fn prompt_text(diff: Seq<char>, context: Option<ProjectContext>) -> Seq<char> {
    PROMPT_HEAD@ + byte_prefix(diff, DIFF_BYTE_LIMIT as nat) + DIFF_CLOSE@ + (match context {
        Some(ctx) => context_section(ctx),
        None => Seq::empty(),
    }) + PROMPT_TAIL@
}

/// Whether the prompt can be cut from these inputs: the diff's first
/// `DIFF_BYTE_LIMIT` bytes and the README's first `README_BYTE_LIMIT` bytes end on
/// character boundaries.
pub open spec fn prompt_inputs_fit(diff: Seq<char>, context: Option<ProjectContext>) -> bool {
    &&& fits_at_char_boundary(diff, DIFF_BYTE_LIMIT as nat)
    &&& match context {
        Some(ctx) => match ctx.readme_content {
            Some(readme) => fits_at_char_boundary(readme@, README_BYTE_LIMIT as nat),
            None => true,
        },
        None => true,
    }
}

/// The context as a value.
pub open spec fn context_value(context: Option<&ProjectContext>) -> Option<ProjectContext> {
    match context {
        Some(c) => Some(*c),
        None => None,
    }
}

/// A model's answer as it is shown: without surrounding whitespace, and without one
/// pair of double quotes around it.
pub open spec fn cleaned(content: Seq<char>) -> Seq<char> {
    let t = trim(content);
    if t.len() >= 2 && t[0] == '"' && t.last() == '"' {
        t.subrange(1, t.len() - 1)
    } else {
        t
    }
}

/// Whether an answer can be cleaned: once trimmed, it is not a lone double quote.
pub open spec fn cleanable(content: Seq<char>) -> bool {
    trim(content) != seq!['"']
}

impl LLMClient {
    /// A client for a model, with an API key and the default token limit.
    pub fn new(model: String, api_key: String) -> (c: LLMClient)
        ensures
            c.model_spec() == model@,
            c.api_key_spec() == api_key@,
            c.max_tokens_spec() == 100,
    {
        LLMClient { model, api_key, max_tokens: default_max_tokens() }
    }

    /// Sets the limit on generated tokens sent with each request (the configured
    /// `max_tokens`).
    pub fn set_max_tokens(&mut self, max_tokens: u16)
        ensures
            final(self).max_tokens_spec() == max_tokens,
            final(self).model_spec() == old(self).model_spec(),
            final(self).api_key_spec() == old(self).api_key_spec(),
    {
        self.max_tokens = max_tokens;
    }

    /// The limit on generated tokens.
    pub closed spec fn max_tokens_spec(&self) -> u16 {
        self.max_tokens
    }

    /// The limit on generated tokens.
    pub fn max_tokens(&self) -> (n: u16)
        ensures
            n == self.max_tokens_spec(),
    {
        self.max_tokens
    }

    /// The model's name.
    pub closed spec fn model_spec(&self) -> Seq<char> {
        self.model@
    }

    /// The API key.
    pub closed spec fn api_key_spec(&self) -> Seq<char> {
        self.api_key@
    }

    /// The model's name.
    pub fn model(&self) -> (m: &str)
        ensures
            m@ == self.model_spec(),
    {
        self.model.as_str()
    }

    /// The API key.
    pub fn api_key(&self) -> (k: &str)
        ensures
            k@ == self.api_key_spec(),
    {
        self.api_key.as_str()
    }

    /// The prompt asking for a commit message for `diff`.
    pub fn build_prompt(&self, diff: &str, context: Option<&ProjectContext>) -> (p: String)
        requires
            prompt_inputs_fit(diff@, context_value(context)),
        ensures
            p@ == prompt_text(diff@, context_value(context)),
    {
        let mut prompt = PROMPT_HEAD.to_string();
        prompt.append(prefix_within_bytes(diff, DIFF_BYTE_LIMIT));
        prompt.append(DIFF_CLOSE);
        let ghost before_context = prompt@;
        match context {
            Some(ctx) => {
                let section = context_part(ctx);
                prompt.append(section.as_str());
            },
            None => {
                assert(before_context + Seq::<char>::empty() =~= before_context);
            },
        }
        prompt.append(PROMPT_TAIL);
        prompt
    }

    /// The request for `num_suggestions` commit messages for `diff`; refused when the
    /// diff holds nothing but whitespace.
    pub fn prepare_request(
        &self,
        diff: &str,
        context: Option<&ProjectContext>,
        num_suggestions: usize,
    ) -> (r: Result<ChatRequest, GenerateError>)
        requires
            trim(diff@).len() == 0 || prompt_inputs_fit(diff@, context_value(context)),
        ensures
            r is Err <==> trim(diff@).len() == 0,
            r matches Err(e) ==> e == GenerateError::NoChanges,
            r matches Ok(req) ==> {
                &&& req.model@ == self.model_spec()
                &&& req.max_tokens == self.max_tokens_spec()
                &&& req.n == num_suggestions
                &&& req.messages@.len() == 2
                &&& req.messages@[0].role@ == "system"@
                &&& req.messages@[0].content@ == SYSTEM_PROMPT@
                &&& req.messages@[1].role@ == "user"@
                &&& req.messages@[1].content@ == prompt_text(diff@, context_value(context))
            },
    {
        let trimmed = trim_str(diff);
        if trimmed.as_str().is_empty() {
            return Err(GenerateError::NoChanges);
        }
        let prompt = self.build_prompt(diff, context);
        let system = ChatMessage { role: "system".to_string(), content: SYSTEM_PROMPT.to_string() };
        let user = ChatMessage { role: "user".to_string(), content: prompt };
        let messages = vec![system, user];
        Ok(ChatRequest {
            model: self.model.clone(),
            messages,
            max_tokens: self.max_tokens,
            n: num_suggestions,
        })
    }
}

/// The project context part of the prompt.
fn context_part(ctx: &ProjectContext) -> (s: String)
    requires
        match ctx.readme_content {
            Some(readme) => fits_at_char_boundary(readme@, README_BYTE_LIMIT as nat),
            None => true,
        },
    ensures
        s@ == context_section(*ctx),
{
    let mut s = CONTEXT_HEADING.to_string();
    let ghost s0 = s@;
    match &ctx.project_name {
        Some(name) => {
            s.append(PROJECT_LABEL);
            s.append(name.as_str());
            s.append(NEWLINE);
        },
        None => {},
    }
    let ghost s1 = s@;
    match &ctx.readme_content {
        Some(readme) => {
            s.append(README_OPEN);
            s.append(prefix_within_bytes(readme.as_str(), README_BYTE_LIMIT));
            s.append(README_CLOSE);
        },
        None => {},
    }
    let ghost s2 = s@;
    let commits = &ctx.recent_commits;
    if commits.len() > 0 {
        s.append(COMMITS_HEADING);
        let ghost s3 = s@;
        let n = if commits.len() < PROMPT_COMMIT_LIMIT {
            commits.len()
        } else {
            PROMPT_COMMIT_LIMIT
        };
        let mut i: usize = 0;
        while i < n
            invariant
                i <= n <= commits@.len(),
                s@ == s3 + commit_bullets(strings_view(commits@).take(i as int)),
            decreases n - i,
        {
            s.append(BULLET);
            s.append(commits[i].as_str());
            s.append(NEWLINE);
            proof {
                let t = strings_view(commits@).take(i + 1);
                assert(t.drop_last() =~= strings_view(commits@).take(i as int));
            }
            i = i + 1;
        }
        proof {
            assert(take_at_most(strings_view(commits@), PROMPT_COMMIT_LIMIT as int)
                =~= strings_view(commits@).take(n as int));
        }
    }
    proof {
        assert(s1 =~= s0 + name_line(*ctx));
        assert(s2 =~= s1 + readme_block(*ctx));
    }
    s
}

/// A model's answer as it is shown: trimmed, and without one pair of surrounding
/// double quotes.
pub fn clean_message(content: &str) -> (m: String)
    requires
        cleanable(content@),
    ensures
        m@ == cleaned(content@),
{
    let t = trim_str(content);
    let n = t.as_str().unicode_len();
    if n >= 1 && t.as_str().get_char(0) == '"' && t.as_str().get_char(n - 1) == '"' {
        proof {
            reveal_strlit("\"");
            if n == 1 {
                assert(t@ =~= seq!['"']);
            }
        }
        t.as_str().substring_char(1, n - 1).to_owned()
    } else {
        t
    }
}

/// Each answer of the model, cleaned.
pub fn clean_messages(contents: &Vec<String>) -> (r: Vec<String>)
    requires
        forall|i: int| 0 <= i < contents@.len() ==> cleanable(#[trigger] contents@[i]@),
    ensures
        r@.len() == contents@.len(),
        forall|i: int| 0 <= i < contents@.len() ==> #[trigger] r@[i]@ == cleaned(contents@[i]@),
{
    let mut r: Vec<String> = Vec::new();
    let n = contents.len();
    let mut i: usize = 0;
    while i < n
        invariant
            i <= n == contents@.len(),
            forall|j: int| 0 <= j < n ==> cleanable(#[trigger] contents@[j]@),
            r@.len() == i,
            forall|j: int| 0 <= j < i ==> #[trigger] r@[j]@ == cleaned(contents@[j]@),
        decreases n - i,
    {
        r.push(clean_message(contents[i].as_str()));
        i = i + 1;
    }
    r
}

/// Whether an HTTP status code reports success (200 to 299).
pub fn is_success_status(code: u16) -> (b: bool)
    ensures
        b == (200 <= code && code <= 299),
{
    200 <= code && code <= 299
}

/// The prompt opens with the instructions followed by the beginning of the diff: the
/// whole diff when it has no more than `DIFF_BYTE_LIMIT` bytes, else its first
/// `DIFF_BYTE_LIMIT` bytes; and it closes by asking for the message alone.
pub proof fn lemma_prompt_shape(diff: Seq<char>, context: Option<ProjectContext>)
    requires
        prompt_inputs_fit(diff, context),
    ensures
        ({
            let p = prompt_text(diff, context);
            let cut = byte_prefix(diff, DIFF_BYTE_LIMIT as nat);
            &&& p.take(PROMPT_HEAD@.len() as int) == PROMPT_HEAD@
            &&& p.subrange(PROMPT_HEAD@.len() as int, (PROMPT_HEAD@.len() + cut.len()) as int) == cut
            &&& cut.is_prefix_of(diff)
            &&& encode_utf8(diff).len() <= DIFF_BYTE_LIMIT ==> cut == diff
            &&& encode_utf8(diff).len() > DIFF_BYTE_LIMIT ==> encode_utf8(cut).len()
                == DIFF_BYTE_LIMIT
            &&& p.skip(p.len() - PROMPT_TAIL@.len()) == PROMPT_TAIL@
        }),
{
    lemma_byte_prefix(diff, DIFF_BYTE_LIMIT as nat);
    let p = prompt_text(diff, context);
    let cut = byte_prefix(diff, DIFF_BYTE_LIMIT as nat);
    let middle = DIFF_CLOSE@ + (match context {
        Some(ctx) => context_section(ctx),
        None => Seq::empty(),
    });
    assert(p =~= PROMPT_HEAD@ + cut + middle + PROMPT_TAIL@);
    assert(p.take(PROMPT_HEAD@.len() as int) =~= PROMPT_HEAD@);
    assert(p.subrange(PROMPT_HEAD@.len() as int, (PROMPT_HEAD@.len() + cut.len()) as int) =~= cut);
    assert(p.skip(p.len() - PROMPT_TAIL@.len()) =~= PROMPT_TAIL@);
}

/// Without context, the prompt for a diff of at most `DIFF_BYTE_LIMIT` bytes is the
/// instructions, the whole diff in a fenced block, and the closing request.
pub proof fn lemma_prompt_without_context(diff: Seq<char>)
    requires
        encode_utf8(diff).len() <= DIFF_BYTE_LIMIT,
    ensures
        prompt_text(diff, None) == PROMPT_HEAD@ + diff + DIFF_CLOSE@ + PROMPT_TAIL@,
{
    assert(prompt_text(diff, None) =~= PROMPT_HEAD@ + diff + DIFF_CLOSE@ + PROMPT_TAIL@);
}

/// No more than `PROMPT_COMMIT_LIMIT` commits are listed in the prompt: the bullets
/// are those of the first ones.
pub proof fn lemma_commit_bullets_first(commits: Seq<Seq<char>>)
    ensures
        take_at_most(commits, PROMPT_COMMIT_LIMIT as int).len() <= PROMPT_COMMIT_LIMIT,
        commits.len() > PROMPT_COMMIT_LIMIT ==> commit_bullets(
            take_at_most(commits, PROMPT_COMMIT_LIMIT as int),
        ) == commit_bullets(commits.take(PROMPT_COMMIT_LIMIT as int)),
{
}

/// Whether two contexts agree on what the prompt shows of a context: the project's
/// name, the README excerpt and the recent commits.
pub open spec fn same_prompt_context(c1: ProjectContext, c2: ProjectContext) -> bool {
    &&& opt_view(c1.project_name) == opt_view(c2.project_name)
    &&& opt_view(c1.readme_content) == opt_view(c2.readme_content)
    &&& strings_view(c1.recent_commits@) == strings_view(c2.recent_commits@)
}

/// The prompt depends on the diff, the project's name, the README excerpt and the
/// recent commits alone: not on `package.json`, `Cargo.toml`, nor on the client (its
/// model or API key), which `prompt_text` does not take.
pub proof fn lemma_prompt_depends_on_shown_parts(
    diff: Seq<char>,
    x1: Option<ProjectContext>,
    x2: Option<ProjectContext>,
)
    requires
        (x1 is None && x2 is None) || (x1 is Some && x2 is Some && same_prompt_context(
            x1->0,
            x2->0,
        )),
    ensures
        prompt_text(diff, x1) == prompt_text(diff, x2),
{
    if x1 is Some {
        let c1 = x1->0;
        let c2 = x2->0;
        assert(name_line(c1) == name_line(c2));
        assert(readme_block(c1) == readme_block(c2));
        assert(c1.recent_commits@.len() == strings_view(c1.recent_commits@).len());
        assert(c2.recent_commits@.len() == strings_view(c2.recent_commits@).len());
        assert(commits_block(c1) == commits_block(c2));
    }
}

/// The prompt's parts in order: the instructions, the diff's first bytes, the fence;
/// then, exactly when there is a context, the context heading followed by the name
/// line, the README block and the commits block; then the closing request. The commits
/// block opens with its heading exactly when there are commits, and is empty otherwise.
pub proof fn lemma_prompt_sections(diff: Seq<char>, context: Option<ProjectContext>)
    ensures
        ({
            let cut = byte_prefix(diff, DIFF_BYTE_LIMIT as nat);
            match context {
                None => prompt_text(diff, context) == PROMPT_HEAD@ + cut + DIFF_CLOSE@
                    + PROMPT_TAIL@,
                Some(c) => prompt_text(diff, context) == PROMPT_HEAD@ + cut + DIFF_CLOSE@
                    + CONTEXT_HEADING@ + name_line(c) + readme_block(c) + commits_block(c)
                    + PROMPT_TAIL@,
            }
        }),
        context matches Some(c) ==> (c.recent_commits@.len() > 0 ==> commits_block(c).take(
            COMMITS_HEADING@.len() as int,
        ) == COMMITS_HEADING@),
        context matches Some(c) ==> (c.recent_commits@.len() == 0 ==> commits_block(c)
            == Seq::<char>::empty()),
{
    let cut = byte_prefix(diff, DIFF_BYTE_LIMIT as nat);
    match context {
        None => {
            assert(prompt_text(diff, context) =~= PROMPT_HEAD@ + cut + DIFF_CLOSE@
                + PROMPT_TAIL@);
        },
        Some(c) => {
            assert(prompt_text(diff, context) =~= PROMPT_HEAD@ + cut + DIFF_CLOSE@
                + CONTEXT_HEADING@ + name_line(c) + readme_block(c) + commits_block(c)
                + PROMPT_TAIL@);
            if c.recent_commits@.len() > 0 {
                let rest = commit_bullets(
                    take_at_most(strings_view(c.recent_commits@), PROMPT_COMMIT_LIMIT as int),
                );
                assert((COMMITS_HEADING@ + rest).take(COMMITS_HEADING@.len() as int)
                    =~= COMMITS_HEADING@);
            }
        },
    }
}

/// The name line is `Project: `, the name and a line end; the README block is the
/// excerpt's first `README_BYTE_LIMIT` bytes between fences; without a name or a
/// README, the part is empty.
pub proof fn lemma_name_and_readme_parts(ctx: ProjectContext)
    ensures
        ctx.project_name matches Some(n) ==> name_line(ctx) == PROJECT_LABEL@ + n@ + NEWLINE@,
        ctx.project_name is None ==> name_line(ctx) == Seq::<char>::empty(),
        ctx.readme_content matches Some(r) ==> readme_block(ctx) == README_OPEN@ + byte_prefix(
            r@,
            README_BYTE_LIMIT as nat,
        ) + README_CLOSE@,
        ctx.readme_content is None ==> readme_block(ctx) == Seq::<char>::empty(),
{
}

/// The bullets of two lists of commits, one after the other, are the bullets of the
/// joined list; one commit gives one bullet line.
pub proof fn lemma_commit_bullets_concat(a: Seq<Seq<char>>, b: Seq<Seq<char>>)
    ensures
        commit_bullets(a + b) == commit_bullets(a) + commit_bullets(b),
    decreases b.len(),
{
    if b.len() == 0 {
        assert(a + b =~= a);
        assert(commit_bullets(a) + Seq::<char>::empty() =~= commit_bullets(a));
    } else {
        lemma_commit_bullets_concat(a, b.drop_last());
        assert((a + b).drop_last() =~= a + b.drop_last());
        assert((a + b).last() == b.last());
        let x = commit_bullets(a);
        let y = commit_bullets(b.drop_last());
        assert(x + y + BULLET@ + b.last() + NEWLINE@ =~= x + (y + BULLET@ + b.last() + NEWLINE@));
    }
}

/// One commit gives the bullet `"- "`, its summary and a line end.
pub proof fn lemma_commit_bullet_single(c: Seq<char>)
    ensures
        commit_bullets(seq![c]) == BULLET@ + c + NEWLINE@,
{
    assert(seq![c].drop_last() =~= Seq::<Seq<char>>::empty());
    assert(seq![c].last() == c);
    assert(commit_bullets(seq![c].drop_last()) == Seq::<char>::empty());
    assert(commit_bullets(seq![c]) == Seq::<char>::empty() + BULLET@ + c + NEWLINE@);
    assert(Seq::<char>::empty() + BULLET@ + c + NEWLINE@ =~= BULLET@ + c + NEWLINE@);
}

/// The commits block lists every recent commit, in order, when there are at most
/// `PROMPT_COMMIT_LIMIT` of them, and the first `PROMPT_COMMIT_LIMIT` otherwise; with
/// no commits there is no block.
pub proof fn lemma_commits_block_lists_commits(ctx: ProjectContext)
    ensures
        ({
            let cs = strings_view(ctx.recent_commits@);
            let k = ctx.recent_commits@.len();
            &&& k == 0 ==> commits_block(ctx) == Seq::<char>::empty()
            &&& (1 <= k <= PROMPT_COMMIT_LIMIT) ==> commits_block(ctx) == COMMITS_HEADING@
                + commit_bullets(cs)
            &&& k > PROMPT_COMMIT_LIMIT ==> commits_block(ctx) == COMMITS_HEADING@
                + commit_bullets(cs.take(PROMPT_COMMIT_LIMIT as int))
        }),
{
}

/// Cleaning depends on the trimmed answer alone.
pub proof fn lemma_cleaned_depends_on_trim(a: Seq<char>, b: Seq<char>)
    requires
        trim(a) == trim(b),
    ensures
        cleaned(a) == cleaned(b),
{
}

/// A trimmed answer in double quotes loses exactly those two quotes; any other
/// trimmed answer is kept whole.
pub proof fn lemma_cleaned_strips_one_pair(a: Seq<char>)
    ensures
        ({
            let t = trim(a);
            &&& (t.len() >= 2 && t[0] == '"' && t.last() == '"') ==> cleaned(a) == t.subrange(
                1,
                t.len() - 1,
            )
            &&& !(t.len() >= 2 && t[0] == '"' && t.last() == '"') ==> cleaned(a) == t
            &&& (t.len() >= 2 && t[0] == '"' && t.last() == '"') ==> cleaned(a).len() + 2
                == t.len()
        }),
{
}

/// A cleaned answer is a contiguous piece of the answer, with no whitespace at its
/// ends unless it stood inside the quotes; cleaning an answer that has no surrounding
/// whitespace and no surrounding quotes leaves it as it is.
pub proof fn lemma_cleaned_piece(content: Seq<char>)
    ensures
        exists|i: int, j: int|
            0 <= i <= j <= content.len() && cleaned(content) == content.subrange(i, j),
        (trim(content) == content && !(content.len() >= 2 && content[0] == '"'
            && content.last() == '"')) ==> cleaned(content) == content,
{
    lemma_trim_piece_bounds(content);
    let (a, b) = choose|a: int, b: int|
        0 <= a <= b <= content.len() && trim(content) == content.subrange(a, b);
    let t = trim(content);
    if t.len() >= 2 && t[0] == '"' && t.last() == '"' {
        assert(t.subrange(1, t.len() - 1) =~= content.subrange(a + 1, b - 1));
    }
}

} // verus!
