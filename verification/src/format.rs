//! The format-string compiler.
//!
//! A message literal such as `"cannot open {file}: {source:?}"` is turned into a
//! positional template (`"cannot open {}: {:?}"`) and the list of argument names
//! that were between the braces, each with the byte offset in the literal at which
//! it starts.
//!
//! The language is defined on bytes: its three delimiters are ASCII, so a scan of
//! the UTF-8 encoding never stops inside a character.

use vstd::prelude::*;
use vstd::string::*;
use vstd::utf8::*;
use crate::text::{cut, lemma_ascii_boundaries, push};

verus! {

/// `{`: opens a placeholder; doubled, it is an escaped brace.
pub const OPEN: u8 = 0x7b;

/// `}`: closes a placeholder.
pub const CLOSE: u8 = 0x7d;

/// `:`: parts an argument name from its format spec.
pub const COLON: u8 = 0x3a;

/// An argument taken out of a literal.
pub struct Placeholder {
    /// The bytes between `{` and the first `:` (or the closing `}`), untrimmed.
    pub name: Seq<u8>,
    /// Index in the literal of the first byte of `name`.
    pub offset: int,
}

/// What a scan hands out: template text, and the arguments in source order.
pub struct Compiled {
    pub text: Seq<u8>,
    pub args: Seq<Placeholder>,
}

/// What a step of the scanner met behind the text that it copied.
pub enum Kind {
    /// Nothing: the text ran to the end of the literal.
    Tail,
    /// The escape `{{`.
    Escape,
    /// A placeholder with a second `}` directly behind it; both are dropped.
    Dropped,
    /// A placeholder that is emitted; the step ends behind its closing brace.
    Slot,
}

/// One step of the scanner: what it emits, and where it goes on.
pub struct Step {
    pub kind: Kind,
    pub text: Seq<u8>,
    pub args: Seq<Placeholder>,
    pub next: int,
}

/// The first index in `[from, to)` at which `s` holds `b`; `to` if there is none.
pub open spec fn find(s: Seq<u8>, b: u8, from: int, to: int) -> int
    decreases to - from,
{
    if from < 0 || to > s.len() || from >= to {
        to
    } else if s[from] == b {
        from
    } else {
        find(s, b, from + 1, to)
    }
}

/// The step that the scanner takes at position `i` of `s`, or `None` where a
/// placeholder is opened and never closed.
///
/// Text up to the next `{` is copied. Then: `{{` is copied as it stands; a
/// placeholder directly followed by a second `}` is dropped together with that
/// brace; any other placeholder `{name}` or `{name:spec}` is emitted as `{}` or
/// `{:spec}` and its name recorded.
pub open spec fn step(s: Seq<u8>, i: int) -> Option<Step> {
    let n = s.len() as int;
    let open = find(s, OPEN, i, n);
    if open >= n {
        Some(Step { kind: Kind::Tail, text: s.subrange(i, n), args: seq![], next: n })
    } else if open + 1 < n && s[open + 1] == OPEN {
        Some(
            Step {
                kind: Kind::Escape,
                text: s.subrange(i, open) + seq![OPEN, OPEN],
                args: seq![],
                next: open + 2,
            },
        )
    } else {
        let close = find(s, CLOSE, open + 1, n);
        if close >= n {
            None
        } else if close + 1 < n && s[close + 1] == CLOSE {
            Some(
                Step {
                    kind: Kind::Dropped,
                    text: s.subrange(i, open),
                    args: seq![],
                    next: close + 2,
                },
            )
        } else {
            let colon = find(s, COLON, open + 1, close);
            Some(
                Step {
                    kind: Kind::Slot,
                    text: s.subrange(i, open) + seq![OPEN] + s.subrange(colon, close) + seq![CLOSE],
                    args: seq![Placeholder { name: s.subrange(open + 1, colon), offset: open + 1 }],
                    next: close + 1,
                },
            )
        }
    }
}

/// `head` followed by `rest`, where there is a rest.
pub open spec fn join(head: Compiled, rest: Option<Compiled>) -> Option<Compiled> {
    match rest {
        Some(c) => Some(Compiled { text: head.text + c.text, args: head.args + c.args }),
        None => None,
    }
}

/// The scan of `s` from position `i` to its end.
pub open spec fn scan(s: Seq<u8>, i: int) -> Option<Compiled>
    decreases s.len() - i,
{
    if i < 0 || i >= s.len() {
        Some(Compiled { text: seq![], args: seq![] })
    } else {
        match step(s, i) {
            Some(st) => {
                proof {
                    lemma_step_advances(s, i);
                }
                join(Compiled { text: st.text, args: st.args }, scan(s, st.next))
            },
            None => None,
        }
    }
}

/// The compiled form of the literal `s`, or `None` if it is malformed.
pub open spec fn compile(s: Seq<u8>) -> Option<Compiled> {
    scan(s, 0)
}

/// The kinds of the steps that the scan of `s` takes from position `i`.
pub open spec fn kinds(s: Seq<u8>, i: int) -> Seq<Kind>
    decreases s.len() - i,
{
    if i < 0 || i >= s.len() {
        seq![]
    } else {
        match step(s, i) {
            Some(st) => {
                proof {
                    lemma_step_advances(s, i);
                }
                seq![st.kind] + kinds(s, st.next)
            },
            None => seq![],
        }
    }
}

/// The scan of `s` from `i` ends directly behind an emitted placeholder.
pub open spec fn ends_in_slot(s: Seq<u8>, i: int) -> bool {
    kinds(s, i).len() > 0 && kinds(s, i).last() == Kind::Slot
}

/// The scan of `s` drops a placeholder somewhere.
pub open spec fn drops(s: Seq<u8>) -> bool {
    kinds(s, 0).contains(Kind::Dropped)
}

/// `c` with every offset moved by `by`.
pub open spec fn shifted(c: Option<Compiled>, by: int) -> Option<Compiled> {
    match c {
        Some(c) => Some(
            Compiled {
                text: c.text,
                args: Seq::new(
                    c.args.len(),
                    |k: int| Placeholder { name: c.args[k].name, offset: c.args[k].offset + by },
                ),
            },
        ),
        None => None,
    }
}

/// `head` followed by `rest`, where both are there.
pub open spec fn chain(head: Option<Compiled>, rest: Option<Compiled>) -> Option<Compiled> {
    match head {
        Some(h) => join(h, rest),
        None => None,
    }
}

/// `find` stays in its range and returns the first hit.
pub proof fn lemma_find(s: Seq<u8>, b: u8, from: int, to: int)
    requires
        0 <= from <= to <= s.len(),
    ensures
        from <= find(s, b, from, to) <= to,
        find(s, b, from, to) < to ==> s[find(s, b, from, to)] == b,
        forall|k: int| from <= k < find(s, b, from, to) ==> s[k] != b,
    decreases to - from,
{
    if from < to && s[from] != b {
        lemma_find(s, b, from + 1, to);
    }
}

/// A step from inside the literal moves forward, and not past the end.
pub proof fn lemma_step_advances(s: Seq<u8>, i: int)
    requires
        0 <= i < s.len(),
    ensures
        step(s, i) matches Some(st) ==> i < st.next <= s.len(),
{
    let n = s.len() as int;
    lemma_find(s, OPEN, i, n);
    let open = find(s, OPEN, i, n);
    if open < n {
        lemma_find(s, CLOSE, open + 1, n);
    }
}

/// The arguments of a compiled template as the scanner's specification sees them.
pub open spec fn placeholders(args: Seq<(String, usize)>) -> Seq<Placeholder> {
    Seq::new(
        args.len(),
        |k: int| Placeholder { name: encode_utf8(args[k].0@), offset: args[k].1 as int },
    )
}

/// The first index in `[from, to)` at which `bytes` holds `b`; `to` if there is none.
fn find_byte(bytes: &[u8], b: u8, from: usize, to: usize) -> (at: usize)
    requires
        from <= to <= bytes@.len(),
    ensures
        at == find(bytes@, b, from as int, to as int),
        from <= at <= to,
{
    let mut at: usize = from;
    while at < to && bytes[at] != b
        invariant
            from <= at <= to <= bytes@.len(),
            find(bytes@, b, from as int, to as int) == find(bytes@, b, at as int, to as int),
        decreases to - at,
    {
        at = at + 1;
    }
    at
}

/// `r` is the compiled form of the literal `src`: its template and its
/// arguments, or `Err` for a malformed literal.
pub open spec fn compiles_to(src: Seq<u8>, r: Result<(String, Vec<(String, usize)>), ()>) -> bool {
    match compile(src) {
        Some(c) => r matches Ok(p) && encode_utf8(p.0@) == c.text && placeholders(p.1@)
            == c.args,
        None => r is Err,
    }
}

/// Compiles the message literal `s`.
///
/// Returns the positional template and, in source order, each argument name with
/// the byte offset at which it starts in `s`; `Err` exactly where a placeholder is
/// opened and never closed.
pub fn fmt_parse(s: &str) -> (r: Result<(String, Vec<(String, usize)>), ()>)
    ensures
        compiles_to(s.spec_bytes(), r),
{
    let bytes = s.as_bytes();
    let n = bytes.len();
    let ghost src = s.spec_bytes();
    let mut out = String::new();
    let mut args: Vec<(String, usize)> = Vec::new();
    let mut i: usize = 0;
    proof {
        encode_utf8_valid_utf8(s@);
        is_char_boundary_start_end_of_seq(src);
        assert(placeholders(args@) == Seq::<Placeholder>::empty());
        assert(encode_utf8(out@) == Seq::<u8>::empty());
        lemma_join_assoc(
            Compiled { text: seq![], args: seq![] },
            Compiled { text: seq![], args: seq![] },
            compile(src),
        );
    }
    loop
        invariant_except_break
            compile(src) == join(
                Compiled { text: encode_utf8(out@), args: placeholders(args@) },
                scan(src, i as int),
            ),
        invariant
            src == s.spec_bytes(),
            src == bytes@,
            n == src.len(),
            valid_utf8(src),
            i <= n,
            is_char_boundary(src, i as int),
            is_char_boundary(src, n as int),
        ensures
            compile(src) == Some(Compiled { text: encode_utf8(out@), args: placeholders(args@) }),
        decreases n - i,
    {
        let ghost done = Compiled { text: encode_utf8(out@), args: placeholders(args@) };
        let open = find_byte(bytes, OPEN, i, n);
        proof {
            lemma_find(src, OPEN, i as int, n as int);
            if open < n {
                lemma_ascii_boundaries(src, open as int);
            }
        }
        push(&mut out, cut(s, i, open));
        if open >= n {
            proof {
                let tail = Compiled { text: src.subrange(i as int, n as int), args: seq![] };
                assert(scan(src, i as int) == Some(tail)) by {
                    if i < n {
                        assert(scan(src, n as int) == Some(
                            Compiled { text: seq![], args: seq![] },
                        ));
                        assert(tail.text + Seq::<u8>::empty() == tail.text);
                        assert(tail.args + Seq::<Placeholder>::empty() == tail.args);
                    } else {
                        assert(tail.text == Seq::<u8>::empty());
                    }
                }
                assert(done.args + tail.args == done.args);
            }
            break ;
        }
        let ghost st = step(src, i as int);
        if open + 1 < n && bytes[open + 1] == OPEN {
            proof {
                lemma_ascii_boundaries(src, open as int + 1);
                lemma_brace_pair();
            }
            push(&mut out, "{{");
            i = open + 2;
            proof {
                let emitted = Compiled { text: st->0.text, args: st->0.args };
                lemma_join_assoc(done, emitted, scan(src, i as int));
                assert(encode_utf8(out@) == done.text + emitted.text);
                assert(placeholders(args@) == done.args + emitted.args);
            }
            continue ;
        }
        let close = find_byte(bytes, CLOSE, open + 1, n);
        proof {
            lemma_find(src, CLOSE, open as int + 1, n as int);
        }
        if close >= n {
            return Err(());
        }
        proof {
            lemma_ascii_boundaries(src, close as int);
        }
        if close + 1 < n && bytes[close + 1] == CLOSE {
            proof {
                lemma_ascii_boundaries(src, close as int + 1);
            }
            i = close + 2;
            proof {
                let emitted = Compiled { text: st->0.text, args: st->0.args };
                lemma_join_assoc(done, emitted, scan(src, i as int));
                assert(placeholders(args@) == done.args + emitted.args);
            }
            continue ;
        }
        let colon = find_byte(bytes, COLON, open + 1, close);
        proof {
            lemma_find(src, COLON, open as int + 1, close as int);
            if colon < close {
                lemma_ascii_boundaries(src, colon as int);
            }
            lemma_braces();
        }
        push(&mut out, "{");
        push(&mut out, cut(s, colon, close));
        push(&mut out, "}");
        let name = String::from_str(cut(s, open + 1, colon));
        args.push((name, open + 1));
        i = close + 1;
        proof {
            let emitted = Compiled { text: st->0.text, args: st->0.args };
            lemma_join_assoc(done, emitted, scan(src, i as int));
            assert(encode_utf8(out@) == done.text + emitted.text);
            assert(placeholders(args@) == done.args + emitted.args);
        }
    }
    Ok((out, args))
}

/// Joining is associative.
proof fn lemma_join_assoc(a: Compiled, b: Compiled, rest: Option<Compiled>)
    ensures
        join(a, join(b, rest)) == join(
            Compiled { text: a.text + b.text, args: a.args + b.args },
            rest,
        ),
{
    if let Some(c) = rest {
        assert(a.text + (b.text + c.text) == a.text + b.text + c.text);
        assert(a.args + (b.args + c.args) == a.args + b.args + c.args);
    }
}

/// The bytes of the literal `"{{"`.
proof fn lemma_brace_pair()
    ensures
        "{{".spec_bytes() == seq![OPEN, OPEN],
{
    reveal_strlit("{{");
    is_ascii_chars_encode_utf8("{{"@);
    assert("{{".spec_bytes() =~= seq![OPEN, OPEN]);
}

/// The bytes of the literals `"{"` and `"}"`.
proof fn lemma_braces()
    ensures
        "{".spec_bytes() == seq![OPEN],
        "}".spec_bytes() == seq![CLOSE],
{
    reveal_strlit("{");
    reveal_strlit("}");
    is_ascii_chars_encode_utf8("{"@);
    is_ascii_chars_encode_utf8("}"@);
    assert("{".spec_bytes() =~= seq![OPEN]);
    assert("}".spec_bytes() =~= seq![CLOSE]);
}

/// Compiling is a function of the literal: two compiled forms of one literal
/// hold the same template, the same names and the same offsets.
pub proof fn lemma_one_result(
    src: Seq<u8>,
    a: Result<(String, Vec<(String, usize)>), ()>,
    b: Result<(String, Vec<(String, usize)>), ()>,
)
    requires
        compiles_to(src, a),
        compiles_to(src, b),
    ensures
        a is Ok <==> b is Ok,
        a matches Ok(p) ==> b matches Ok(q) && p.0@ == q.0@ && p.1.deep_view() == q.1.deep_view(),
{
    if let Ok(p) = a {
        let q = b->Ok_0;
        encode_utf8_decode_utf8(p.0@);
        encode_utf8_decode_utf8(q.0@);
        assert(p.1@.len() == placeholders(p.1@).len());
        assert(q.1@.len() == placeholders(q.1@).len());
        assert forall|k: int| 0 <= k < p.1@.len() implies p.1.deep_view()[k] == q.1.deep_view()[k]
        by {
            assert(placeholders(p.1@)[k] == placeholders(q.1@)[k]);
            encode_utf8_decode_utf8(p.1@[k].0@);
            encode_utf8_decode_utf8(q.1@[k].0@);
        }
        assert(p.1.deep_view() =~= q.1.deep_view());
    }
}

} // verus!
