//! Reading the agent tools' output: extracting the fingerprint from a
//! `ssh-keygen -lf` line, testing a fingerprint against the lines of the
//! agent's listing, and resolving the loaded-or-not status of an entry.
//!
//! The subprocess calls themselves happen outside the crate; these
//! functions take the captured text and decide everything about it.

use vstd::prelude::*;
use vstd::string::StrSliceExecFns;
use vstd::string::StringExecFns;

use crate::entry::KeyEntry;
use crate::text::contains_seq;
use crate::text::is_ws;
use crate::text::is_ws_char;
use crate::text::range_contains;

verus! {

// ---------------------------------------------------------------------------
// fingerprint extraction: the second whitespace-separated token
// ---------------------------------------------------------------------------

/// First index at or after `i` whose character is not whitespace, or the
/// length.
pub open spec fn skip_ws_from(s: Seq<char>, i: int) -> int
    decreases s.len() - i when 0 <= i <= s.len()
{
    if i < s.len() && is_ws_char(s[i]) {
        skip_ws_from(s, i + 1)
    } else {
        i
    }
}

/// First index at or after `i` whose character is whitespace, or the
/// length.
pub open spec fn skip_token_from(s: Seq<char>, i: int) -> int
    decreases s.len() - i when 0 <= i <= s.len()
{
    if i < s.len() && !is_ws_char(s[i]) {
        skip_token_from(s, i + 1)
    } else {
        i
    }
}

/// The second whitespace-separated token of the text, or the empty
/// sequence when there is none. This is where `ssh-keygen -lf` prints the
/// fingerprint, after the bit count.
pub open spec fn second_token(s: Seq<char>) -> Seq<char> {
    let a = skip_ws_from(s, 0);
    let b = skip_token_from(s, a);
    let c = skip_ws_from(s, b);
    let d = skip_token_from(s, c);
    s.subrange(c, d)
}

proof fn lemma_skip_ws_at(s: Seq<char>, i: int, j: int)
    requires
        0 <= i <= j <= s.len(),
        forall|k: int| i <= k < j ==> is_ws_char(s[k]),
        j < s.len() ==> !is_ws_char(s[j]),
    ensures
        skip_ws_from(s, i) == j,
    decreases j - i,
{
    if i < j {
        lemma_skip_ws_at(s, i + 1, j);
    }
}

proof fn lemma_skip_token_at(s: Seq<char>, i: int, j: int)
    requires
        0 <= i <= j <= s.len(),
        forall|k: int| i <= k < j ==> !is_ws_char(s[k]),
        j < s.len() ==> is_ws_char(s[j]),
    ensures
        skip_token_from(s, i) == j,
    decreases j - i,
{
    if i < j {
        lemma_skip_token_at(s, i + 1, j);
    }
}

fn advance_ws(s: &str, start: usize) -> (j: usize)
    requires
        start <= s@.len(),
    ensures
        start <= j <= s@.len(),
        j == skip_ws_from(s@, start as int),
{
    let n = s.unicode_len();
    let mut j: usize = start;
    while j < n && is_ws(s.get_char(j))
        invariant
            start <= j <= n,
            n == s@.len(),
            forall|k: int| start <= k < j ==> is_ws_char(s@[k]),
        decreases n - j,
    {
        j = j + 1;
    }
    proof {
        lemma_skip_ws_at(s@, start as int, j as int);
    }
    j
}

fn advance_token(s: &str, start: usize) -> (j: usize)
    requires
        start <= s@.len(),
    ensures
        start <= j <= s@.len(),
        j == skip_token_from(s@, start as int),
{
    let n = s.unicode_len();
    let mut j: usize = start;
    while j < n && !is_ws(s.get_char(j))
        invariant
            start <= j <= n,
            n == s@.len(),
            forall|k: int| start <= k < j ==> !is_ws_char(s@[k]),
        decreases n - j,
    {
        j = j + 1;
    }
    proof {
        lemma_skip_token_at(s@, start as int, j as int);
    }
    j
}

/// The fingerprint printed by the key tool: its output's second
/// whitespace-separated token, or the empty string when the output has
/// fewer than two tokens.
pub fn fingerprint_from_output(out: &str) -> (r: String)
    ensures
        r@ == second_token(out@),
{
    let a = advance_ws(out, 0);
    let b = advance_token(out, a);
    let c = advance_ws(out, b);
    let d = advance_token(out, c);
    String::from_str(out.substring_char(c, d))
}

// ---------------------------------------------------------------------------
// membership in the agent's listing
// ---------------------------------------------------------------------------

/// `[a, b)` is one full line of the text: it touches a border or a line
/// break on both sides and holds no break itself.
pub open spec fn is_line(s: Seq<char>, a: int, b: int) -> bool {
    &&& 0 <= a <= b <= s.len()
    &&& (a == 0 || s[a - 1] == '\n')
    &&& (b == s.len() || s[b] == '\n')
    &&& forall|k: int| a <= k < b ==> s[k] != '\n'
}

/// Some line of the listing holds the fingerprint as a substring.
pub open spec fn listing_shows(s: Seq<char>, fp: Seq<char>) -> bool {
    exists|a: int, b: int| #[trigger] is_line(s, a, b) && contains_seq(s.subrange(a, b), fp)
}

proof fn lemma_line_start_unique(s: Seq<char>, a: int, b: int, start: int)
    requires
        is_line(s, a, b),
        0 <= start <= b,
        start == 0 || s[start - 1] == '\n',
        forall|k: int| start <= k < b ==> s[k] != '\n',
    ensures
        a == start,
{
    if a < start {
        assert(s[start - 1] == '\n');
        assert(a <= start - 1 < b);
        assert(false);
    }
    if a > start {
        assert(s[a - 1] == '\n');
        assert(start <= a - 1 < b);
        assert(false);
    }
}

/// Whether any line of the listing holds the fingerprint.
#[verifier::loop_isolation(false)]
pub fn any_line_contains(s: &str, fp: &str) -> (r: bool)
    ensures
        r == listing_shows(s@, fp@),
{
    let n = s.unicode_len();
    let mut start: usize = 0;
    let mut i: usize = 0;
    while i < n
        invariant
            start <= i <= n,
            start == 0 || s@[start - 1] == '\n',
            forall|k: int| start <= k < i ==> s@[k] != '\n',
            forall|a: int, b: int|
                #[trigger] is_line(s@, a, b) && b < start ==> !contains_seq(
                    s@.subrange(a, b),
                    fp@,
                ),
        decreases n - i,
    {
        let c = s.get_char(i);
        if c == '\n' {
            if range_contains(s, start, i, fp) {
                proof {
                    assert(is_line(s@, start as int, i as int));
                }
                return true;
            }
            proof {
                assert forall|a: int, b: int|
                    #[trigger] is_line(s@, a, b) && b < i + 1 implies !contains_seq(
                    s@.subrange(a, b),
                    fp@,
                ) by {
                    if b >= start {
                        if b < i {
                            assert(s@[b] == '\n');
                            assert(false);
                        }
                        lemma_line_start_unique(s@, a, b, start as int);
                    }
                }
            }
            start = i + 1;
        }
        i = i + 1;
    }
    if range_contains(s, start, n, fp) {
        proof {
            assert(is_line(s@, start as int, n as int));
        }
        return true;
    }
    proof {
        assert forall|a: int, b: int|
            #[trigger] is_line(s@, a, b) implies !contains_seq(s@.subrange(a, b), fp@) by {
            if b >= start {
                if b < n {
                    assert(s@[b] == '\n');
                    assert(false);
                }
                lemma_line_start_unique(s@, a, b, start as int);
            }
        }
    }
    false
}

// ---------------------------------------------------------------------------
// the status resolver
// ---------------------------------------------------------------------------

/// The ghost image of a captured subprocess result.
pub open spec fn result_view(r: Result<String, String>) -> Result<Seq<char>, Seq<char>> {
    match r {
        Ok(s) => Ok(s@),
        Err(e) => Err(e@),
    }
}

/// Whether a listing probe proves the fingerprint loaded. A probe that
/// could not reach the agent proves nothing and counts as not loaded.
pub open spec fn probe_loaded(fp: Seq<char>, listing: Result<Seq<char>, Seq<char>>) -> bool {
    match listing {
        Ok(text) => listing_shows(text, fp),
        Err(_) => false,
    }
}

/// What the resolver answers for a selected entry.
#[derive(Debug, PartialEq)]
pub enum AgentStatus {
    /// The entry has no public half on disk, so it cannot be fingerprinted.
    NotAKey,
    LoadedInAgent,
    NotLoaded,
    /// The fingerprint query itself failed; carries its message.
    StatusError(String),
}

/// Answers, for a selected entry, whether its key is currently loaded in
/// the running agent. Read-only: one fingerprint query and one listing
/// query feed [`AgentStatusResolver::resolve`]; no call here mutates
/// anything.
pub struct AgentStatusResolver {}

impl AgentStatusResolver {
    /// Whether the entry can be fingerprinted at all: it needs a public
    /// half that really exists on disk. When this is false the status is
    /// [`AgentStatus::NotAKey`] and no probe is made.
    pub fn needs_probe(entry: &KeyEntry, public_file_exists: bool) -> (r: bool)
        ensures
            r == (entry@.has_public && public_file_exists),
    {
        entry.has_public && public_file_exists
    }

    /// Resolves the probes into a status: a failed fingerprint query is
    /// reported as an error, a loaded fingerprint as loaded, anything
    /// else - even an unreachable agent - as not loaded.
    pub fn resolve(fp_result: &Result<String, String>, listing_result: &Result<String, String>)
        -> (st: AgentStatus)
        ensures
            fp_result matches Err(e) ==> st matches AgentStatus::StatusError(m) && m@ == e@,
            fp_result matches Ok(fp) && probe_loaded(fp@, result_view(*listing_result))
                ==> st is LoadedInAgent,
            fp_result matches Ok(fp) && !probe_loaded(fp@, result_view(*listing_result))
                ==> st is NotLoaded,
    {
        match fp_result {
            Err(e) => AgentStatus::StatusError(e.clone()),
            Ok(fp) => match listing_result {
                Ok(text) => {
                    if any_line_contains(text.as_str(), fp.as_str()) {
                        AgentStatus::LoadedInAgent
                    } else {
                        AgentStatus::NotLoaded
                    }
                },
                Err(_) => AgentStatus::NotLoaded,
            },
        }
    }
}

/// Law: when the agent's listing shows no fingerprint at all, every
/// successfully fingerprinted pair resolves to not loaded, never to an
/// error. In particular an empty listing shows no non-empty fingerprint,
/// so [`AgentStatusResolver::resolve`] answers [`AgentStatus::NotLoaded`]
/// for it.
pub proof fn lemma_empty_listing_not_loaded(fp: Seq<char>)
    requires
        fp.len() > 0,
    ensures
        !probe_loaded(fp, Ok(Seq::<char>::empty())),
{
    let empty = Seq::<char>::empty();
    if listing_shows(empty, fp) {
        let (a, b) = choose|a: int, b: int|
            #[trigger] is_line(empty, a, b) && contains_seq(empty.subrange(a, b), fp);
        assert(a == 0 && b == 0);
        let k = choose|k: int|
            0 <= k && k + fp.len() <= empty.subrange(0, 0).len() && #[trigger] empty.subrange(
                0,
                0,
            ).subrange(k, k + fp.len()) == fp;
        assert(false);
    }
}

} // verus!
