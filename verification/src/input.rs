//! The command interpreter: an ordered table of whole-line anchored rules,
//! tried in sequence against the player's line; the first rule that matches
//! produces the intent, and a line no rule matches means no operation.

use vstd::prelude::*;
use crate::strutil::{
    has_prefix, is_word, word_prefix_len, str_eq, str_has_prefix, has_prefix_at,
    match_prefix_word, match_prefix_rest, scan_word, word_range, substr_string,
};

verus! {

/// A structured command produced from one line of raw input.
#[derive(PartialEq, Eq, Debug, Clone)]
pub enum Input {
    Go(String),
    Look(String),
    Take(String),
    Use(String),
    UseWith(String, String),
    Search,
    NoOp,
    Save(Option<String>),
    Load(Option<String>),
    Exit,
}

/// The mathematical form of an [`Input`]: the same intents over character
/// sequences.
pub enum Intent {
    Go(Seq<char>),
    Look(Seq<char>),
    Take(Seq<char>),
    Use(Seq<char>),
    UseWith(Seq<char>, Seq<char>),
    Search,
    NoOp,
    Save(Option<Seq<char>>),
    Load(Option<Seq<char>>),
    Exit,
}

impl View for Input {
    type V = Intent;

    open spec fn view(&self) -> Intent {
        match self {
            Input::Go(t) => Intent::Go(t@),
            Input::Look(t) => Intent::Look(t@),
            Input::Take(t) => Intent::Take(t@),
            Input::Use(t) => Intent::Use(t@),
            Input::UseWith(a, b) => Intent::UseWith(a@, b@),
            Input::Search => Intent::Search,
            Input::NoOp => Intent::NoOp,
            Input::Save(o) => Intent::Save(o.deep_view()),
            Input::Load(o) => Intent::Load(o.deep_view()),
            Input::Exit => Intent::Exit,
        }
    }
}

/// Which intent family a rule produces.
#[derive(Clone, Copy)]
pub enum InputSpec {
    Go,
    Look,
    Take,
    Use,
    Search,
    Save,
    Load,
    Exit,
}

/// The shape of a rule's pattern, whole-line anchored: the entire line, a
/// verb prefix followed by one word, a verb prefix followed by any non-empty
/// remainder, or the two-capture form "use X on Y" / "use X with Y".
#[derive(Clone, Copy)]
pub enum Pattern {
    Exact(&'static str),
    WordAfter(&'static str),
    RestAfter(&'static str),
    WordPair,
}

/// The remainder of the line after the "use " verb.
pub open spec fn uw_rest(line: Seq<char>) -> Seq<char> {
    line.skip("use "@.len() as int)
}

/// Length of the first capture of the two-capture use rule.
pub open spec fn uw_k(line: Seq<char>) -> int {
    word_prefix_len(uw_rest(line))
}

/// What follows the first capture.
pub open spec fn uw_after(line: Seq<char>) -> Seq<char> {
    uw_rest(line).skip(uw_k(line))
}

pub open spec fn uw_on(line: Seq<char>) -> bool {
    has_prefix(uw_after(line), " on "@)
}

pub open spec fn uw_with(line: Seq<char>) -> bool {
    has_prefix(uw_after(line), " with "@)
}

/// The first capture: the item used.
pub open spec fn uw_item(line: Seq<char>) -> Seq<char> {
    uw_rest(line).take(uw_k(line))
}

/// The second capture: the object the item is used on.
pub open spec fn uw_object(line: Seq<char>) -> Seq<char> {
    if uw_on(line) {
        uw_after(line).skip(" on "@.len() as int)
    } else {
        uw_after(line).skip(" with "@.len() as int)
    }
}

/// Whether the line has the form `use <word> (on|with) <word>`.
pub open spec fn use_with_matches(line: Seq<char>) -> bool {
    &&& has_prefix(line, "use "@)
    &&& uw_k(line) > 0
    &&& uw_on(line) || uw_with(line)
    &&& is_word(uw_object(line))
}

/// What a single rule makes of a line: the intent it produces, or nothing if
/// the line does not fit its pattern. Pattern shapes that the rule's intent
/// family cannot use never match.
pub open spec fn pattern_matches(p: Pattern, ispec: InputSpec, line: Seq<char>) -> Option<Intent> {
    match p {
        Pattern::Exact(t) => if line == t@ {
            match ispec {
                InputSpec::Search => Some(Intent::Search),
                InputSpec::Exit => Some(Intent::Exit),
                InputSpec::Save => Some(Intent::Save(None)),
                InputSpec::Load => Some(Intent::Load(None)),
                _ => None,
            }
        } else {
            None
        },
        Pattern::WordAfter(t) => if has_prefix(line, t@) && is_word(line.skip(t@.len() as int)) {
            let w = line.skip(t@.len() as int);
            match ispec {
                InputSpec::Go => Some(Intent::Go(w)),
                InputSpec::Look => Some(Intent::Look(w)),
                InputSpec::Use => Some(Intent::Use(w)),
                InputSpec::Save => Some(Intent::Save(Some(w))),
                InputSpec::Load => Some(Intent::Load(Some(w))),
                _ => None,
            }
        } else {
            None
        },
        Pattern::RestAfter(t) => if has_prefix(line, t@) && line.len() > t@.len() {
            match ispec {
                InputSpec::Take => Some(Intent::Take(line.skip(t@.len() as int))),
                _ => None,
            }
        } else {
            None
        },
        Pattern::WordPair => if use_with_matches(line) && ispec is Use {
            Some(Intent::UseWith(uw_item(line), uw_object(line)))
        } else {
            None
        },
    }
}

/// The interpreter's rule table, in the order the rules are tried.
pub open spec fn rules() -> Seq<(Pattern, InputSpec)> {
    seq![
        (Pattern::WordAfter("go "), InputSpec::Go),
        (Pattern::WordAfter("enter "), InputSpec::Go),
        (Pattern::WordAfter("look at "), InputSpec::Look),
        (Pattern::WordAfter("look "), InputSpec::Look),
        (Pattern::WordAfter("examine "), InputSpec::Look),
        (Pattern::Exact("search"), InputSpec::Search),
        (Pattern::RestAfter("take "), InputSpec::Take),
        (Pattern::WordAfter("use "), InputSpec::Use),
        (Pattern::WordPair, InputSpec::Use),
        (Pattern::Exact("exit"), InputSpec::Exit),
        (Pattern::Exact("save"), InputSpec::Save),
        (Pattern::WordAfter("save "), InputSpec::Save),
        (Pattern::Exact("load"), InputSpec::Load),
        (Pattern::WordAfter("load "), InputSpec::Load),
    ]
}

/// The intent of the first rule of `rs` that matches `line`, or `NoOp` if
/// none does.
pub open spec fn first_match(rs: Seq<(Pattern, InputSpec)>, line: Seq<char>) -> Intent
    decreases rs.len(),
{
    if rs.len() == 0 {
        Intent::NoOp
    } else {
        match pattern_matches(rs[0].0, rs[0].1, line) {
            Some(i) => i,
            None => first_match(rs.drop_first(), line),
        }
    }
}

/// What one line of player input means: exactly one intent, for every line.
pub open spec fn spec_parse(line: Seq<char>) -> Intent {
    first_match(rules(), line)
}

proof fn lemma_first_match_skip(rs: Seq<(Pattern, InputSpec)>, line: Seq<char>, i: int)
    requires
        0 <= i <= rs.len(),
        forall|j: int| 0 <= j < i ==> pattern_matches((#[trigger] rs[j]).0, rs[j].1, line) is None,
    ensures
        first_match(rs, line) == first_match(rs.skip(i), line),
    decreases i,
{
    if i == 0 {
        assert(rs.skip(0) =~= rs);
    } else {
        lemma_first_match_skip(rs, line, i - 1);
        assert(rs.skip(i - 1)[0] == rs[i - 1]);
        assert(rs.skip(i - 1).drop_first() =~= rs.skip(i));
    }
}

/// Parse `use <word> (on|with) <word>` into its two captures.
fn match_use_with(line: &str) -> (r: Option<(String, String)>)
    ensures
        match r {
            Some(p) => use_with_matches(line@) && p.0@ == uw_item(line@) && p.1@ == uw_object(line@),
            None => !use_with_matches(line@),
        },
{
    proof {
        reveal_strlit("use ");
        reveal_strlit(" on ");
        reveal_strlit(" with ");
    }
    if !str_has_prefix(line, "use ") {
        return None;
    }
    let n = line.unicode_len();
    proof {
        assert(uw_rest(line@) =~= line@.skip(4));
    }
    let k = scan_word(line, 4);
    proof {
        assert(uw_k(line@) == k - 4);
        assert(uw_after(line@) =~= line@.skip(k as int));
    }
    if k == 4 {
        return None;
    }
    let on = has_prefix_at(line, k, " on ");
    let with_delim = if on {
        false
    } else {
        has_prefix_at(line, k, " with ")
    };
    if !on && !with_delim {
        return None;
    }
    let obj_start = if on {
        k + 4
    } else {
        k + 6
    };
    proof {
        if uw_on(line@) {
            assert(uw_object(line@) =~= line@.skip(k + 4));
            assert(line@.skip(k + 4) =~= line@.subrange(k + 4, n as int));
        } else {
            assert(uw_object(line@) =~= line@.skip(k + 6));
            assert(line@.skip(k + 6) =~= line@.subrange(k + 6, n as int));
        }
    }
    if !word_range(line, obj_start, n) {
        return None;
    }
    let item = substr_string(line, 4, k);
    let object = substr_string(line, obj_start, n);
    proof {
        assert(uw_item(line@) =~= line@.subrange(4, k as int));
    }
    Some((item, object))
}

/// One rule of the interpreter: a pattern and the intent family it yields.
pub struct InputPattern {
    pub pattern: Pattern,
    pub input: InputSpec,
}

impl InputPattern {
    pub fn new(pattern: Pattern, input: InputSpec) -> (r: InputPattern)
        ensures
            r.pattern == pattern,
            r.input == input,
    {
        InputPattern { pattern, input }
    }

    /// Try this rule against a line: the intent it matched, or the reason it
    /// produced none. Patterns are whole-line anchored, so a rule matches at
    /// most once and the ambiguous-grammar outcome cannot arise.
    pub fn get_input(&self, input: &String) -> (r: Result<Input, String>)
        ensures
            match r {
                Ok(intent) => pattern_matches(self.pattern, self.input, input@) == Some(intent@),
                Err(_) => pattern_matches(self.pattern, self.input, input@) is None,
            },
    {
        let input = input.as_str();
        match self.pattern {
            Pattern::Exact(t) => {
                if str_eq(input, t) {
                    match self.input {
                        InputSpec::Search => Ok(Input::Search),
                        InputSpec::Exit => Ok(Input::Exit),
                        InputSpec::Save => Ok(Input::Save(None)),
                        InputSpec::Load => Ok(Input::Load(None)),
                        _ => Err(String::from_str("no match")),
                    }
                } else {
                    Err(String::from_str("no match"))
                }
            },
            Pattern::WordAfter(t) => {
                match match_prefix_word(input, t) {
                    Some(w) => match self.input {
                        InputSpec::Go => Ok(Input::Go(w)),
                        InputSpec::Look => Ok(Input::Look(w)),
                        InputSpec::Use => Ok(Input::Use(w)),
                        InputSpec::Save => Ok(Input::Save(Some(w))),
                        InputSpec::Load => Ok(Input::Load(Some(w))),
                        _ => Err(String::from_str("no match")),
                    },
                    None => Err(String::from_str("no match")),
                }
            },
            Pattern::RestAfter(t) => {
                match match_prefix_rest(input, t) {
                    Some(rest) => match self.input {
                        InputSpec::Take => Ok(Input::Take(rest)),
                        _ => Err(String::from_str("no match")),
                    },
                    None => Err(String::from_str("no match")),
                }
            },
            Pattern::WordPair => {
                match self.input {
                    InputSpec::Use => match match_use_with(input) {
                        Some((item, object)) => Ok(Input::UseWith(item, object)),
                        None => Err(String::from_str("no match")),
                    },
                    _ => Err(String::from_str("no match")),
                }
            },
        }
    }
}

/// Turn one trimmed line of raw input into exactly one intent: the rules are
/// tried in table order and the first that matches wins; a line no rule
/// matches is no operation. Total: every string parses to exactly one intent.
pub fn parse_input_str(input: &str) -> (r: Input)
    ensures
        r@ == spec_parse(input@),
{
    let sinput = String::from_str(input);
    let mut patterns: Vec<InputPattern> = Vec::new();
    patterns.push(InputPattern::new(Pattern::WordAfter("go "), InputSpec::Go));
    patterns.push(InputPattern::new(Pattern::WordAfter("enter "), InputSpec::Go));
    patterns.push(InputPattern::new(Pattern::WordAfter("look at "), InputSpec::Look));
    patterns.push(InputPattern::new(Pattern::WordAfter("look "), InputSpec::Look));
    patterns.push(InputPattern::new(Pattern::WordAfter("examine "), InputSpec::Look));
    patterns.push(InputPattern::new(Pattern::Exact("search"), InputSpec::Search));
    patterns.push(InputPattern::new(Pattern::RestAfter("take "), InputSpec::Take));
    patterns.push(InputPattern::new(Pattern::WordAfter("use "), InputSpec::Use));
    patterns.push(InputPattern::new(Pattern::WordPair, InputSpec::Use));
    patterns.push(InputPattern::new(Pattern::Exact("exit"), InputSpec::Exit));
    patterns.push(InputPattern::new(Pattern::Exact("save"), InputSpec::Save));
    patterns.push(InputPattern::new(Pattern::WordAfter("save "), InputSpec::Save));
    patterns.push(InputPattern::new(Pattern::Exact("load"), InputSpec::Load));
    patterns.push(InputPattern::new(Pattern::WordAfter("load "), InputSpec::Load));
    proof {
        assert forall|j: int| 0 <= j < rules().len()
            implies ((#[trigger] patterns@[j]).pattern, patterns@[j].input) == rules()[j] by {}
    }
    let mut i: usize = 0;
    while i < patterns.len()
        invariant
            sinput@ == input@,
            patterns@.len() == rules().len(),
            forall|j: int| 0 <= j < patterns@.len()
                ==> ((#[trigger] patterns@[j]).pattern, patterns@[j].input) == rules()[j],
            0 <= i <= patterns@.len(),
            forall|j: int| 0 <= j < i
                ==> pattern_matches((#[trigger] rules()[j]).0, rules()[j].1, input@) is None,
        decreases patterns@.len() - i,
    {
        match patterns[i].get_input(&sinput) {
            Ok(result) => {
                proof {
                    lemma_first_match_skip(rules(), input@, i as int);
                    assert(rules().skip(i as int)[0] == rules()[i as int]);
                }
                return result;
            },
            Err(_) => {},
        }
        i += 1;
    }
    proof {
        lemma_first_match_skip(rules(), input@, rules().len() as int);
    }
    Input::NoOp
}

/// The diagnostic shown for a line no rule matched. The session suppresses
/// it for empty input, so an idle prompt stays quiet.
pub fn unrecognised_input_message(input: &str) -> (r: String)
    ensures
        r@ == "Unrecognised input: \""@ + input@ + "\" (no match)"@,
{
    let mut s = String::from_str("Unrecognised input: \"");
    s.append(input);
    s.append("\" (no match)");
    s
}

} // verus!
