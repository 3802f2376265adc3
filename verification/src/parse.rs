//! The expression grammar the evaluator accepts.
//!
//! The evaluation surface of the runtime takes one expression per call:
//!
//! ```text
//! expr ::= NAME
//!        | NAME "." NAME
//!        | NAME "." NAME "(" [ NAME { "," NAME } ] ")"
//! ```
//!
//! where every `NAME` is a simple identifier.  The first form reads a
//! constant; the others call a method on it, the arguments naming other
//! constants.  The grammar is given once as a spec function over character
//! sequences, and the executable parser is proved to follow it exactly.

use vstd::prelude::*;
use vstd::string::StrSliceExecFns;

use crate::text;

verus! {

/// Spec mirror of [`Ast`].
pub enum AstSig {
    Name(Seq<char>),
    Call { receiver: Seq<char>, method: Seq<char>, args: Seq<Seq<char>> },
}

/// One parsed expression.
pub enum Ast {
    /// A bare constant read.
    Name(String),
    /// A method call on a constant, with constant-naming arguments.
    Call { receiver: String, method: String, args: Vec<String> },
}

impl View for Ast {
    type V = AstSig;

    open spec fn view(&self) -> AstSig {
        match self {
            Ast::Name(n) => AstSig::Name(n@),
            Ast::Call { receiver, method, args } => AstSig::Call {
                receiver: receiver@,
                method: method@,
                args: args@.map_values(|a: String| a@),
            },
        }
    }
}

/// The first position of `c` in `s`, or `s.len()` when absent.
pub open spec fn find_char(s: Seq<char>, c: char) -> int
    decreases s.len(),
{
    if s.len() == 0 {
        0
    } else if s[0] == c {
        0
    } else {
        1 + find_char(s.drop_first(), c)
    }
}

/// What [`find_char`] returns: the first match, or the length.
pub proof fn lemma_find_char(s: Seq<char>, c: char)
    ensures
        0 <= find_char(s, c) <= s.len(),
        find_char(s, c) < s.len() ==> s[find_char(s, c)] == c,
        forall|j: int| 0 <= j < find_char(s, c) ==> s[j] != c,
    decreases s.len(),
{
    if s.len() > 0 && s[0] != c {
        lemma_find_char(s.drop_first(), c);
        assert forall|j: int| 0 <= j < find_char(s, c) implies s[j] != c by {
            if j > 0 {
                assert(s.drop_first()[j - 1] == s[j]);
            }
        }
    }
}

/// A position with a match after a clean prefix pins [`find_char`] down.
pub proof fn lemma_find_char_at(s: Seq<char>, c: char, i: int)
    requires
        0 <= i <= s.len(),
        forall|j: int| 0 <= j < i ==> s[j] != c,
        i < s.len() ==> s[i] == c,
    ensures
        find_char(s, c) == i,
    decreases i,
{
    if i == 0 {
        if s.len() > 0 && s[0] != c {
            lemma_find_char(s.drop_first(), c);
        }
    } else {
        assert forall|j: int| 0 <= j < i - 1 implies s.drop_first()[j] != c by {
            assert(s.drop_first()[j] == s[j + 1]);
        }
        if i < s.len() {
            assert(s.drop_first()[i - 1] == s[i]);
        }
        lemma_find_char_at(s.drop_first(), c, i - 1);
    }
}

/// The argument list between the parentheses: empty, or identifiers
/// separated by commas.
pub open spec fn spec_parse_args(s: Seq<char>) -> Option<Seq<Seq<char>>>
    decreases s.len(),
    via spec_parse_args_decreases
{
    if s.len() == 0 {
        Some(Seq::empty())
    } else {
        let k = find_char(s, ',');
        if k == s.len() {
            if text::is_identifier(s) {
                Some(seq![s])
            } else {
                None
            }
        } else if k == s.len() - 1 {
            None
        } else {
            if text::is_identifier(s.take(k)) {
                match spec_parse_args(s.skip(k + 1)) {
                    Some(rest) => Some(seq![s.take(k)] + rest),
                    None => None,
                }
            } else {
                None
            }
        }
    }
}

#[via_fn]
proof fn spec_parse_args_decreases(s: Seq<char>) {
    lemma_find_char(s, ',');
}

/// The expression an input denotes, if it is in the grammar.
pub open spec fn spec_parse(s: Seq<char>) -> Option<AstSig> {
    let d = find_char(s, '.');
    if d == s.len() {
        if text::is_identifier(s) {
            Some(AstSig::Name(s))
        } else {
            None
        }
    } else {
        let receiver = s.take(d);
        let rest = s.skip(d + 1);
        if !text::is_identifier(receiver) {
            None
        } else {
            let p = find_char(rest, '(');
            if p == rest.len() {
                if text::is_identifier(rest) {
                    Some(AstSig::Call { receiver, method: rest, args: Seq::empty() })
                } else {
                    None
                }
            } else {
                if rest.len() >= 1 && rest[rest.len() - 1] == ')' && p < rest.len() - 1
                    && text::is_identifier(rest.take(p)) {
                    match spec_parse_args(rest.subrange(p + 1, rest.len() - 1)) {
                        Some(args) => Some(
                            AstSig::Call { receiver, method: rest.take(p), args },
                        ),
                        None => None,
                    }
                } else {
                    None
                }
            }
        }
    }
}

/// The characters of a string, in order.
fn chars_of(s: &str) -> (r: Vec<char>)
    ensures
        r@ == s@,
{
    let n = s.unicode_len();
    let mut r: Vec<char> = Vec::new();
    let mut i: usize = 0;
    while i < n
        invariant
            0 <= i <= n,
            n == s@.len(),
            r@ == s@.take(i as int),
        decreases n - i,
    {
        r.push(s.get_char(i));
        proof {
            assert(s@.take(i as int + 1) =~= s@.take(i as int).push(s@[i as int]));
        }
        i += 1;
    }
    proof {
        assert(s@.take(n as int) =~= s@);
    }
    r
}

/// The first position of `c` in `cs[from..to]`, relative to `cs`; `to` when
/// absent.
fn find_in(cs: &Vec<char>, from: usize, to: usize, c: char) -> (r: usize)
    requires
        from <= to <= cs@.len(),
    ensures
        from <= r <= to,
        r - from == find_char(cs@.subrange(from as int, to as int), c),
{
    let mut i: usize = from;
    while i < to
        invariant
            from <= i <= to <= cs@.len(),
            forall|j: int| from <= j < i ==> cs@[j] != c,
        decreases to - i,
    {
        if cs[i] == c {
            proof {
                assert forall|j: int| 0 <= j < i - from implies cs@.subrange(
                    from as int,
                    to as int,
                )[j] != c by {
                    assert(cs@.subrange(from as int, to as int)[j] == cs@[from + j]);
                }
                assert(cs@.subrange(from as int, to as int)[i - from] == cs@[i as int]);
                lemma_find_char_at(cs@.subrange(from as int, to as int), c, i - from);
            }
            return i;
        }
        i += 1;
    }
    proof {
        assert forall|j: int| 0 <= j < to - from implies cs@.subrange(from as int, to as int)[j]
            != c by {
            assert(cs@.subrange(from as int, to as int)[j] == cs@[from + j]);
        }
        lemma_find_char_at(cs@.subrange(from as int, to as int), c, to - from);
    }
    to
}

/// Whether `cs[from..to]` is a simple identifier.
fn is_identifier_in(cs: &Vec<char>, from: usize, to: usize) -> (r: bool)
    requires
        from <= to <= cs@.len(),
    ensures
        r == text::is_identifier(cs@.subrange(from as int, to as int)),
{
    if from == to {
        return false;
    }
    if !text::ident_start(cs[from]) {
        proof {
            assert(cs@.subrange(from as int, to as int)[0] == cs@[from as int]);
        }
        return false;
    }
    let mut i: usize = from + 1;
    while i < to
        invariant
            from < i <= to <= cs@.len(),
            text::is_ident_start(cs@[from as int]),
            forall|j: int| from < j < i ==> text::is_ident_char(#[trigger] cs@[j]),
        decreases to - i,
    {
        if !text::ident_char(cs[i]) {
            proof {
                assert(cs@.subrange(from as int, to as int)[i - from] == cs@[i as int]);
            }
            return false;
        }
        i += 1;
    }
    proof {
        let sub = cs@.subrange(from as int, to as int);
        assert(sub[0] == cs@[from as int]);
        assert forall|j: int| 0 < j < sub.len() implies text::is_ident_char(sub[j]) by {
            assert(sub[j] == cs@[from + j]);
        }
    }
    true
}

/// Copies `cs[from..to]` into a string.
fn string_of_range(cs: &Vec<char>, from: usize, to: usize) -> (r: String)
    requires
        from <= to <= cs@.len(),
    ensures
        r@ == cs@.subrange(from as int, to as int),
{
    let mut r = String::new();
    let mut i: usize = from;
    while i < to
        invariant
            from <= i <= to <= cs@.len(),
            r@ == cs@.subrange(from as int, i as int),
        decreases to - i,
    {
        text::push_char(&mut r, cs[i]);
        proof {
            assert(cs@.subrange(from as int, i as int + 1) =~= cs@.subrange(
                from as int,
                i as int,
            ).push(cs@[i as int]));
        }
        i += 1;
    }
    r
}

/// Parses the argument list `cs[from..to]`.
fn parse_args_in(cs: &Vec<char>, from: usize, to: usize) -> (r: Option<Vec<String>>)
    requires
        from <= to <= cs@.len(),
    ensures
        match r {
            Some(args) => spec_parse_args(cs@.subrange(from as int, to as int)) == Some(
                args@.map_values(|a: String| a@),
            ),
            None => spec_parse_args(cs@.subrange(from as int, to as int)) is None,
        },
    decreases to - from,
{
    let ghost sub = cs@.subrange(from as int, to as int);
    if from == to {
        let r: Vec<String> = Vec::new();
        proof {
            assert(r@.map_values(|a: String| a@) =~= Seq::<Seq<char>>::empty());
        }
        return Some(r);
    }
    let k = find_in(cs, from, to, ',');
    proof {
        assert(sub.take(k - from) =~= cs@.subrange(from as int, k as int));
    }
    if k == to {
        if is_identifier_in(cs, from, to) {
            let mut args: Vec<String> = Vec::new();
            args.push(string_of_range(cs, from, to));
            proof {
                assert(args@.map_values(|a: String| a@) =~= seq![sub]);
            }
            Some(args)
        } else {
            None
        }
    } else if k == to - 1 {
        None
    } else {
        if !is_identifier_in(cs, from, k) {
            return None;
        }
        let first = string_of_range(cs, from, k);
        let res = parse_args_in(cs, k + 1, to);
        proof {
            assert(sub.skip(k - from + 1) =~= cs@.subrange(k as int + 1, to as int));
            assert(spec_parse_args(sub) == (match spec_parse_args(sub.skip(k - from + 1)) {
                Some(rest) => Some(seq![sub.take(k - from)] + rest),
                None => None,
            }));
        }
        match res {
            Some(rest) => {
                let mut args: Vec<String> = Vec::new();
                args.push(first);
                let mut j: usize = 0;
                let n = rest.len();
                while j < n
                    invariant
                        0 <= j <= n,
                        n == rest@.len(),
                        args@.len() == j + 1,
                        args@[0] == first,
                        forall|t: int| 0 <= t < j ==> args@[t + 1] == rest@[t],
                    decreases n - j,
                {
                    args.push(rest[j].clone());
                    j += 1;
                }
                proof {
                    assert(args@.map_values(|a: String| a@) =~= seq![sub.take(k - from)]
                        + rest@.map_values(|a: String| a@));
                }
                Some(args)
            },
            None => None,
        }
    }
}

/// Parses one expression; `None` exactly when the input is outside the
/// grammar.
pub fn parse(code: &str) -> (r: Option<Ast>)
    ensures
        match r {
            Some(ast) => spec_parse(code@) == Some(ast@),
            None => spec_parse(code@) is None,
        },
{
    let cs = chars_of(code);
    let n = cs.len();
    proof {
        assert(cs@.subrange(0, n as int) =~= code@);
    }
    let d = find_in(&cs, 0, n, '.');
    if d == n {
        if is_identifier_in(&cs, 0, n) {
            let name = string_of_range(&cs, 0, n);
            return Some(Ast::Name(name));
        } else {
            return None;
        }
    }
    proof {
        assert(code@.take(d as int) =~= cs@.subrange(0, d as int));
    }
    if !is_identifier_in(&cs, 0, d) {
        return None;
    }
    let receiver = string_of_range(&cs, 0, d);
    let ghost rest = code@.skip(d as int + 1);
    proof {
        assert(rest =~= cs@.subrange(d as int + 1, n as int));
    }
    let p = find_in(&cs, d + 1, n, '(');
    proof {
        assert(rest.take(p - (d + 1)) =~= cs@.subrange(d as int + 1, p as int));
    }
    if p == n {
        if is_identifier_in(&cs, d + 1, n) {
            let method = string_of_range(&cs, d + 1, n);
            let args: Vec<String> = Vec::new();
            proof {
                assert(args@.map_values(|a: String| a@) =~= Seq::<Seq<char>>::empty());
            }
            return Some(Ast::Call { receiver, method, args });
        } else {
            return None;
        }
    }
    if !(cs[n - 1] == ')') || !(p < n - 1) {
        proof {
            if rest.len() >= 1 {
                assert(rest[rest.len() - 1] == cs@[n - 1]);
            }
        }
        return None;
    }
    proof {
        assert(rest[rest.len() - 1] == cs@[n - 1]);
    }
    if !is_identifier_in(&cs, d + 1, p) {
        return None;
    }
    let method = string_of_range(&cs, d + 1, p);
    proof {
        assert(rest.subrange(p - (d + 1) + 1, rest.len() - 1) =~= cs@.subrange(
            p as int + 1,
            n as int - 1,
        ));
    }
    match parse_args_in(&cs, p + 1, n - 1) {
        Some(args) => Some(Ast::Call { receiver, method, args }),
        None => None,
    }
}

} // verus!
