//! Typed plans. A model reply is tried whole and then as each complete JSON
//! object in it; the candidates are parsed into these structs outside the
//! library, and the first that is usable is taken: at least one edit, and
//! every edit's path relative and free of `..`, so no plan can write outside
//! the review sandbox.

use vstd::prelude::*;
use crate::agents::{AgentError, AgentErrorView};
use crate::chars::{trim, trimmed};
use crate::text::chars_of;

verus! {

#[derive(Debug, Clone)]
pub struct PlannedEdit {
    pub path: String,
    pub content: String,
}

#[derive(Debug, Clone)]
pub struct FixPlan {
    pub summary: String,
    pub root_cause: String,
    pub edits: Vec<PlannedEdit>,
}

/// Whether some `/`-separated segment of the path is `..`.
pub open spec fn has_parent_segment(p: Seq<char>) -> bool {
    exists|i: int|
        0 <= i && i + 2 <= p.len() && #[trigger] p[i] == '.' && p[i + 1] == '.' && (i == 0 || p[i - 1] == '/')
            && (i + 2 == p.len() || p[i + 2] == '/')
}

/// Sandbox safety: a non-empty relative path with no parent (`..`) component.
pub open spec fn path_safe(p: Seq<char>) -> bool {
    p.len() > 0 && p[0] != '/' && !has_parent_segment(p)
}

/// Refuses empty, absolute and parent-escaping paths.
pub fn validate_path(path: &str) -> (r: Result<(), AgentError>)
    ensures
        path_safe(path@) ==> r is Ok,
        !path_safe(path@) ==> (r matches Err(e) && e@ == AgentErrorView::UnsafePath(path@)),
{
    let v = chars_of(path);
    let n = v.len();
    if n == 0 || v[0] == '/' {
        return Err(AgentError::UnsafePath(String::from_str(path)));
    }
    let mut i: usize = 0;
    while n >= 2 && i <= n - 2
        invariant
            n == v@.len(),
            v@ == path@,
            forall|j: int|
                0 <= j < i ==> !(j + 2 <= v@.len() && #[trigger] v@[j] == '.' && v@[j + 1] == '.' && (j == 0 || v@[j - 1] == '/')
                    && (j + 2 == v@.len() || v@[j + 2] == '/')),
        decreases n - i,
    {
        if v[i] == '.' && v[i + 1] == '.' && (i == 0 || v[i - 1] == '/') && (i + 2 == n || v[i + 2] == '/') {
            return Err(AgentError::UnsafePath(String::from_str(path)));
        }
        i = i + 1;
    }
    Ok(())
}

/// Where the object opened before position `k` closes: a quote-aware scan
/// that counts `{` and `}` outside JSON strings (with `\\` escapes inside
/// them) at nesting `depth`.
pub open spec fn scan_close(s: Seq<char>, k: int, depth: nat, in_str: bool, esc: bool) -> Option<int>
    decreases s.len() - k,
{
    if k < 0 || k >= s.len() {
        None
    } else if in_str {
        if esc {
            scan_close(s, k + 1, depth, true, false)
        } else if s[k] == '\\' {
            scan_close(s, k + 1, depth, true, true)
        } else if s[k] == '"' {
            scan_close(s, k + 1, depth, false, false)
        } else {
            scan_close(s, k + 1, depth, true, false)
        }
    } else if s[k] == '"' {
        scan_close(s, k + 1, depth, true, false)
    } else if s[k] == '{' {
        scan_close(s, k + 1, depth + 1, false, false)
    } else if s[k] == '}' {
        if depth <= 1 {
            Some(k)
        } else {
            scan_close(s, k + 1, (depth - 1) as nat, false, false)
        }
    } else {
        scan_close(s, k + 1, depth, false, false)
    }
}

/// The position of the `}` that balances a `{` at position `i`, if the
/// object is complete.
pub open spec fn object_end(s: Seq<char>, i: int) -> Option<int> {
    if 0 <= i < s.len() && s[i] == '{' {
        scan_close(s, i, 0, false, false)
    } else {
        None
    }
}

/// Every complete, balanced `{...}` object of the text that starts at or
/// after position `i`, in order of where it starts.
pub open spec fn object_spans(s: Seq<char>, i: int) -> Seq<Seq<char>>
    decreases s.len() - i,
{
    if i < 0 || i >= s.len() {
        Seq::empty()
    } else {
        match object_end(s, i) {
            Some(j) => seq![s.subrange(i, j + 1)] + object_spans(s, i + 1),
            None => object_spans(s, i + 1),
        }
    }
}

/// What a model reply is tried as, in order: the whole trimmed reply, then
/// every complete object in it.
pub open spec fn plan_candidate_texts(text: Seq<char>) -> Seq<Seq<char>> {
    seq![trim(text)] + object_spans(text, 0)
}

pub open spec fn texts_of(v: Seq<String>) -> Seq<Seq<char>> {
    v.map_values(|x: String| x@)
}

/// The end of the object opened at `v[i]`, by the quote-aware scan.
fn object_end_exec(v: &Vec<char>, i: usize) -> (r: Option<usize>)
    requires
        i < v@.len(),
        v@[i as int] == '{',
    ensures
        match object_end(v@, i as int) {
            Some(j) => r == Some(j as usize) && i <= j < v@.len(),
            None => r is None,
        },
{
    let n = v.len();
    let mut k: usize = i;
    let mut depth: usize = 0;
    let mut in_str = false;
    let mut esc = false;
    while k < n
        invariant
            n == v@.len(),
            i <= k <= n,
            depth <= k - i,
            !in_str ==> !esc,
            object_end(v@, i as int) == scan_close(v@, k as int, depth as nat, in_str, esc),
        decreases n - k,
    {
        let c = v[k];
        proof {
            assert(scan_close(v@, k as int, depth as nat, in_str, esc) == (if in_str {
                if esc {
                    scan_close(v@, k + 1, depth as nat, true, false)
                } else if c == '\\' {
                    scan_close(v@, k + 1, depth as nat, true, true)
                } else if c == '"' {
                    scan_close(v@, k + 1, depth as nat, false, false)
                } else {
                    scan_close(v@, k + 1, depth as nat, true, false)
                }
            } else if c == '"' {
                scan_close(v@, k + 1, depth as nat, true, false)
            } else if c == '{' {
                scan_close(v@, k + 1, (depth + 1) as nat, false, false)
            } else if c == '}' {
                if depth <= 1 { Some(k as int) } else { scan_close(v@, k + 1, (depth - 1) as nat, false, false) }
            } else {
                scan_close(v@, k + 1, depth as nat, false, false)
            }));
        }
        if in_str {
            if esc {
                esc = false;
            } else if c == '\\' {
                esc = true;
            } else if c == '"' {
                in_str = false;
            }
        } else if c == '"' {
            in_str = true;
        } else if c == '{' {
            depth = depth + 1;
        } else if c == '}' {
            if depth <= 1 {
                return Some(k);
            }
            depth = depth - 1;
        }
        k = k + 1;
    }
    None
}

/// The texts a model reply is tried as, in order: the whole trimmed reply,
/// then every complete, balanced, quote-aware `{...}` object in it, by start.
pub fn plan_candidates(text: &str) -> (c: Vec<String>)
    ensures
        texts_of(c@) == plan_candidate_texts(text@),
{
    let v = chars_of(text);
    let mut c: Vec<String> = Vec::new();
    c.push(trimmed(text));
    let n = v.len();
    let mut i: usize = 0;
    while i < n
        invariant
            n == v@.len(),
            v@ == text@,
            i <= n,
            texts_of(c@) + object_spans(text@, i as int) == plan_candidate_texts(text@),
        decreases n - i,
    {
        let ghost before = c@;
        if v[i] == '{' {
            match object_end_exec(&v, i) {
                Some(j) => {
                    c.push(crate::chars::sub_string(&v, i, j + 1));
                    assert(texts_of(c@) =~= texts_of(before) + seq![text@.subrange(i as int, j + 1)]);
                },
                None => {},
            }
        }
        assert(texts_of(c@) + object_spans(text@, i + 1) =~= texts_of(before) + object_spans(text@, i as int));
        i = i + 1;
    }
    assert(object_spans(text@, n as int) =~= Seq::<Seq<char>>::empty());
    assert(texts_of(c@) =~= texts_of(c@) + object_spans(text@, n as int));
    c
}

pub open spec fn edits_safe(edits: Seq<PlannedEdit>) -> bool {
    forall|i: int| 0 <= i < edits.len() ==> path_safe(#[trigger] edits[i].path@)
}

/// The index of the first edit with an unsafe path, if any.
pub open spec fn first_unsafe(edits: Seq<PlannedEdit>, i: int) -> Option<int>
    decreases edits.len() - i,
{
    if i < 0 || i >= edits.len() {
        None
    } else if !path_safe(edits[i].path@) {
        Some(i)
    } else {
        first_unsafe(edits, i + 1)
    }
}

proof fn lemma_first_unsafe_none(edits: Seq<PlannedEdit>, i: int)
    requires
        0 <= i,
        first_unsafe(edits, i) is None,
    ensures
        forall|j: int| i <= j < edits.len() ==> path_safe(#[trigger] edits[j].path@),
    decreases edits.len() - i,
{
    if i < edits.len() {
        lemma_first_unsafe_none(edits, i + 1);
    }
}

/// Accepts a parsed plan only with at least one edit and only safe paths.
/// `parsed` is the JSON parse of the reply's object (`Err` with the
/// parser's message).
pub fn accept_parsed_plan(parsed: Result<FixPlan, String>) -> (r: Result<FixPlan, AgentError>)
    ensures
        match parsed {
            Err(m) => r matches Err(e) && e@ == AgentErrorView::PlanParse("invalid plan JSON: "@ + m@),
            Ok(plan) => if plan.edits@.len() == 0 {
                r matches Err(e) && e@ == AgentErrorView::PlanParse("plan contained no edits"@)
            } else {
                match first_unsafe(plan.edits@, 0) {
                    Some(i) => r matches Err(e) && e@ == AgentErrorView::UnsafePath(plan.edits@[i].path@),
                    None => r == Ok::<FixPlan, AgentError>(plan) && edits_safe(plan.edits@),
                }
            },
        },
{
    match parsed {
        Err(m) => {
            let mut msg = String::from_str("invalid plan JSON: ");
            msg.append(m.as_str());
            Err(AgentError::PlanParse(msg))
        },
        Ok(plan) => {
            if plan.edits.len() == 0 {
                return Err(AgentError::PlanParse(String::from_str("plan contained no edits")));
            }
            let mut i: usize = 0;
            #[verifier::loop_isolation(false)]
            while i < plan.edits.len()
                invariant
                    i <= plan.edits@.len(),
                    first_unsafe(plan.edits@, 0) == first_unsafe(plan.edits@, i as int),
                decreases plan.edits@.len() - i,
            {
                match validate_path(plan.edits[i].path.as_str()) {
                    Err(e) => return Err(e),
                    Ok(()) => {},
                }
                i = i + 1;
            }
            proof { lemma_first_unsafe_none(plan.edits@, 0); }
            Ok(plan)
        },
    }
}

/// A plan the sandbox may take: at least one edit, every path safe.
pub open spec fn plan_ok(p: FixPlan) -> bool {
    p.edits@.len() > 0 && edits_safe(p.edits@)
}

/// Whether a parsed plan is safe to apply.
pub fn plan_usable(p: &FixPlan) -> (b: bool)
    ensures
        b == plan_ok(*p),
{
    if p.edits.len() == 0 {
        return false;
    }
    let mut i: usize = 0;
    while i < p.edits.len()
        invariant
            i <= p.edits@.len(),
            forall|j: int| 0 <= j < i ==> path_safe(#[trigger] p.edits@[j].path@),
        decreases p.edits@.len() - i,
    {
        if validate_path(p.edits[i].path.as_str()).is_err() {
            return false;
        }
        i = i + 1;
    }
    true
}

/// The first candidate, from `i` on, that parsed into a usable plan.
pub open spec fn first_usable(c: Seq<Result<FixPlan, String>>, i: int) -> Option<int>
    decreases c.len() - i,
{
    if i < 0 || i >= c.len() {
        None
    } else if c[i] matches Ok(p) && plan_ok(p) {
        Some(i)
    } else {
        first_usable(c, i + 1)
    }
}

/// The first candidate, from `i` on, that parsed into a plan at all.
pub open spec fn first_parsed(c: Seq<Result<FixPlan, String>>, i: int) -> Option<int>
    decreases c.len() - i,
{
    if i < 0 || i >= c.len() {
        None
    } else if c[i] is Ok {
        Some(i)
    } else {
        first_parsed(c, i + 1)
    }
}

/// The error `accept_parsed_plan` gives for a candidate it refuses.
pub open spec fn refusal(c: Result<FixPlan, String>, e: AgentErrorView) -> bool {
    match c {
        Err(m) => e == AgentErrorView::PlanParse("invalid plan JSON: "@ + m@),
        Ok(plan) => if plan.edits@.len() == 0 {
            e == AgentErrorView::PlanParse("plan contained no edits"@)
        } else {
            match first_unsafe(plan.edits@, 0) {
                Some(i) => e == AgentErrorView::UnsafePath(plan.edits@[i].path@),
                None => false,
            }
        },
    }
}

/// Picks the plan of a model reply from the parses of its candidates
/// (`plan_candidates`, in the same order; `Err` with the parser's message):
/// the first that parsed into a usable plan. Where none did, the reply is
/// refused with the check's error for the first candidate that parsed (an
/// empty or escaping plan), else, where the reply has no complete object,
/// as holding none, else with the parse error of its first object.
pub fn choose_plan(parsed: Vec<Result<FixPlan, String>>) -> (r: Result<FixPlan, AgentError>)
    ensures
        match first_usable(parsed@, 0) {
            Some(i) => r == Ok::<FixPlan, AgentError>(parsed@[i]->Ok_0) && plan_ok(parsed@[i]->Ok_0),
            None => r matches Err(e) && match first_parsed(parsed@, 0) {
                Some(i) => refusal(parsed@[i], e@),
                None => if parsed@.len() <= 1 {
                    e@ == AgentErrorView::PlanParse("no JSON object found in model output"@)
                } else {
                    refusal(parsed@[1], e@)
                },
            },
        },
{
    let ghost c = parsed@;
    let mut all = parsed;
    assert(all@ == c);
    let mut i: usize = 0;
    while i < all.len()
        invariant
            all@ == c,
            c == parsed@,
            i <= c.len(),
            first_usable(c, 0) == first_usable(c, i as int),
        decreases c.len() - i,
    {
        let usable = match &all[i] {
            Ok(p) => plan_usable(p),
            Err(_) => false,
        };
        if usable {
            let taken = all.remove(i);
            assert(taken == c[i as int]);
            assert(c[i as int] is Ok && plan_ok(c[i as int]->Ok_0));
            assert(first_usable(c, i as int) == Some(i as int));
            return match taken {
                Ok(p) => Ok(p),
                Err(_) => Err(AgentError::PlanParse(String::new())),
            };
        }
        i = i + 1;
    }
    let mut j: usize = 0;
    while j < all.len()
        invariant
            all@ == c,
            c == parsed@,
            j <= c.len(),
            first_usable(c, 0) is None,
            first_parsed(c, 0) == first_parsed(c, j as int),
        decreases c.len() - j,
    {
        if all[j].is_ok() {
            let cand = all.remove(j);
            assert(cand == c[j as int]);
            assert(first_parsed(c, j as int) == Some(j as int));
            proof {
                lemma_parsed_not_usable(c, 0, j as int);
                if cand is Ok {
                    lemma_first_unsafe_none_safe(cand->Ok_0.edits@);
                }
            }
            return accept_parsed_plan(cand);
        }
        j = j + 1;
    }
    if all.len() <= 1 {
        return Err(AgentError::PlanParse(String::from_str("no JSON object found in model output")));
    }
    proof { lemma_none_parsed(c, 0, 1); }
    let cand = all.remove(1);
    assert(cand == c[1]);
    accept_parsed_plan(cand)
}

proof fn lemma_none_parsed(c: Seq<Result<FixPlan, String>>, i: int, j: int)
    requires
        0 <= i <= j < c.len(),
        first_parsed(c, i) is None,
    ensures
        c[j] is Err,
    decreases j - i,
{
    if i < j {
        lemma_none_parsed(c, i + 1, j);
    }
}

proof fn lemma_first_unsafe_none_safe(edits: Seq<PlannedEdit>)
    ensures
        first_unsafe(edits, 0) is None ==> edits_safe(edits),
{
    if first_unsafe(edits, 0) is None {
        lemma_first_unsafe_none(edits, 0);
    }
}

proof fn lemma_parsed_not_usable(c: Seq<Result<FixPlan, String>>, i: int, j: int)
    requires
        0 <= i <= j < c.len(),
        first_usable(c, i) is None,
    ensures
        !(c[j] matches Ok(p) && plan_ok(p)),
    decreases j - i,
{
    if i < j {
        lemma_parsed_not_usable(c, i + 1, j);
    }
}

/// The prompt's listing of the sandbox's current files.
pub open spec fn context_text(files: Seq<(String, String)>) -> Seq<char>
    decreases files.len(),
{
    if files.len() == 0 {
        "CURRENT FILES IN THE REVIEW SANDBOX:\n"@
    } else {
        context_text(files.drop_last()) + "--- FILE: "@ + files.last().0@ + " ---\n"@ + files.last().1@ + "\n"@
    }
}

/// The planner prompt: the `TASK: PLAN` contract, the trimmed bug
/// description, the sandbox's current files and the required JSON shape.
pub open spec fn planner_prompt_text(bug: Seq<char>, files: Seq<(String, String)>) -> Seq<char> {
    "TASK: PLAN\nYou are the planner agent of Swarm CI, reviewing a pull request.\nBUG DESCRIPTION:\n"@
        + trim(bug) + "\n\n"@ + context_text(files)
        + "\nProduce the minimal correct fix. Respond with ONLY one JSON object \u{2014} no prose, no markdown fences \u{2014} shaped exactly like:\n{\"summary\": string, \"root_cause\": string, \"edits\": [{\"path\": string, \"content\": string}]}\nEach edit fully REPLACES the target file inside the review sandbox.\n"@
}

/// The listing of one file in the prompt.
pub open spec fn file_block(f: (String, String)) -> Seq<char> {
    "--- FILE: "@ + f.0@ + " ---\n"@ + f.1@ + "\n"@
}

/// The prompt's text before the file listing.
pub open spec fn prompt_head(bug: Seq<char>) -> Seq<char> {
    "TASK: PLAN\nYou are the planner agent of Swarm CI, reviewing a pull request.\nBUG DESCRIPTION:\n"@
        + trim(bug) + "\n\n"@ + "CURRENT FILES IN THE REVIEW SANDBOX:\n"@
}

/// Law: the listing starts with its header alone, and one more file adds
/// exactly that file's block at the end.
pub proof fn law_listing_grows_by_one_block(files: Seq<(String, String)>, f: (String, String))
    ensures
        context_text(Seq::empty()) == "CURRENT FILES IN THE REVIEW SANDBOX:\n"@,
        context_text(files.push(f)) == context_text(files) + file_block(f),
{
    assert(files.push(f).drop_last() =~= files);
}

proof fn lemma_listing_prefix(files: Seq<(String, String)>, k: int)
    requires
        0 <= k <= files.len(),
    ensures
        context_text(files.subrange(0, k)).len() <= context_text(files).len(),
        context_text(files).subrange(0, context_text(files.subrange(0, k)).len() as int) == context_text(files.subrange(0, k)),
    decreases files.len(),
{
    if k == files.len() {
        assert(files.subrange(0, k) =~= files);
        assert(context_text(files).subrange(0, context_text(files).len() as int) =~= context_text(files));
    } else {
        let d = files.drop_last();
        assert(d.subrange(0, k) =~= files.subrange(0, k));
        lemma_listing_prefix(d, k);
        let a = context_text(files.subrange(0, k));
        assert(context_text(files).subrange(0, a.len() as int) =~= context_text(d).subrange(0, a.len() as int));
    }
}

/// Law: every file of the context is listed in the prompt, whole and in
/// order: the block of file `i` stands in the prompt right after the prompt
/// head and the listing of the files before it.
pub proof fn law_prompt_lists_every_file(bug: Seq<char>, files: Seq<(String, String)>, i: int)
    requires
        0 <= i < files.len(),
    ensures
        ({
            let p = planner_prompt_text(bug, files);
            let o = prompt_head(bug).len() + context_text(files.subrange(0, i)).len()
                - "CURRENT FILES IN THE REVIEW SANDBOX:\n"@.len();
            &&& o + file_block(files[i]).len() <= p.len()
            &&& p.subrange(o, o + file_block(files[i]).len()) == file_block(files[i])
        }),
{
    let head = "CURRENT FILES IN THE REVIEW SANDBOX:\n"@;
    let pre = "TASK: PLAN\nYou are the planner agent of Swarm CI, reviewing a pull request.\nBUG DESCRIPTION:\n"@
        + trim(bug) + "\n\n"@;
    let before = context_text(files.subrange(0, i));
    let upto = context_text(files.subrange(0, i + 1));
    assert(files.subrange(0, i + 1).drop_last() =~= files.subrange(0, i));
    assert(upto == before + file_block(files[i]));
    lemma_listing_prefix(files, i + 1);
    lemma_listing_prefix(files.subrange(0, i), 0);
    assert(files.subrange(0, i).subrange(0, 0) =~= Seq::<(String, String)>::empty());
    assert(before.subrange(0, head.len() as int) == head);
    let c = context_text(files);
    let p = planner_prompt_text(bug, files);
    assert(prompt_head(bug) =~= pre + head);
    let b = file_block(files[i]);
    assert(c.subrange(before.len() as int, upto.len() as int) =~= b) by {
        assert(c.subrange(0, upto.len() as int) == upto);
        assert forall|x: int| 0 <= x < b.len() implies c.subrange(before.len() as int, upto.len() as int)[x] == b[x] by {
            assert(c[before.len() + x] == upto[before.len() + x]);
        }
    }
    let o: int = (pre.len() + before.len()) as int;
    assert forall|x: int| 0 <= x < b.len() implies p.subrange(o, o + b.len() as int)[x] == b[x] by {
        assert(p[o + x] == c[before.len() + x]);
    }
    assert(p.subrange(o, o + b.len() as int) =~= b);
}

pub fn planner_prompt(bug_description: &str, context_files: &[(String, String)]) -> (p: String)
    ensures
        p@ == planner_prompt_text(bug_description@, context_files@),
{
    let mut context = String::from_str("CURRENT FILES IN THE REVIEW SANDBOX:\n");
    let mut i: usize = 0;
    while i < context_files.len()
        invariant
            i <= context_files@.len(),
            context@ == context_text(context_files@.subrange(0, i as int)),
        decreases context_files@.len() - i,
    {
        let (path, content) = &context_files[i];
        context.append("--- FILE: ");
        context.append(path.as_str());
        context.append(" ---\n");
        context.append(content.as_str());
        context.append("\n");
        assert(context_files@.subrange(0, i + 1).drop_last() =~= context_files@.subrange(0, i as int));
        i = i + 1;
    }
    assert(context_files@.subrange(0, context_files@.len() as int) =~= context_files@);
    let mut p = String::from_str(
        "TASK: PLAN\nYou are the planner agent of Swarm CI, reviewing a pull request.\nBUG DESCRIPTION:\n",
    );
    let bug = trimmed(bug_description);
    p.append(bug.as_str());
    p.append("\n\n");
    p.append(context.as_str());
    p.append(
        "\nProduce the minimal correct fix. Respond with ONLY one JSON object \u{2014} no prose, no markdown fences \u{2014} shaped exactly like:\n{\"summary\": string, \"root_cause\": string, \"edits\": [{\"path\": string, \"content\": string}]}\nEach edit fully REPLACES the target file inside the review sandbox.\n",
    );
    p
}

} // verus!
