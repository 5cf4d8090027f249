//! How the compiled form of a literal follows from the compiled forms of its parts.

use vstd::prelude::*;
use crate::format::{
    chain, compile, drops, ends_in_slot, find, join, kinds, lemma_find, lemma_step_advances, scan,
    shifted, step, Compiled, Kind, Placeholder, Step, CLOSE, COLON, OPEN,
};

verus! {

/// `find` looks at nothing but the range it is given: where `t` holds, `d` places
/// on, what `s` holds in `[from, to)`, it finds the same byte `d` places on.
proof fn lemma_find_moved(s: Seq<u8>, t: Seq<u8>, b: u8, from: int, to: int, d: int)
    requires
        0 <= from <= to <= s.len(),
        0 <= from + d,
        to + d <= t.len(),
        forall|k: int| from <= k < to ==> s[k] == t[k + d],
    ensures
        find(t, b, from + d, to + d) == find(s, b, from, to) + d,
    decreases to - from,
{
    if from < to && s[from] != b {
        lemma_find_moved(s, t, b, from + 1, to, d);
    }
}

/// A search over `[from, to)` is the search over `[from, mid)` and, if that
/// finds nothing, the search over `[mid, to)`.
proof fn lemma_find_split(s: Seq<u8>, b: u8, from: int, mid: int, to: int)
    requires
        0 <= from <= mid <= to <= s.len(),
    ensures
        find(s, b, from, to) == if find(s, b, from, mid) < mid {
            find(s, b, from, mid)
        } else {
            find(s, b, mid, to)
        },
    decreases mid - from,
{
    if from < mid && s[from] != b {
        lemma_find_split(s, b, from + 1, mid, to);
    }
}

/// Text without `{` in front of position `j` is copied, whatever follows.
pub proof fn lemma_text_first(s: Seq<u8>, i: int, j: int)
    requires
        0 <= i <= j <= s.len(),
        forall|k: int| i <= k < j ==> s[k] != OPEN,
    ensures
        scan(s, i) == join(Compiled { text: s.subrange(i, j), args: seq![] }, scan(s, j)),
{
    let n = s.len() as int;
    let head = Compiled { text: s.subrange(i, j), args: seq![] };
    if i == j {
        if let Some(c) = scan(s, j) {
            assert(head.text + c.text == c.text);
            assert(head.args + c.args == c.args);
        }
    } else {
        lemma_find(s, OPEN, i, j);
        lemma_find_split(s, OPEN, i, j, n);
        let open = find(s, OPEN, i, n);
        assert(open == find(s, OPEN, j, n));
        lemma_find(s, OPEN, j, n);
        lemma_step_advances(s, i);
        if j == n {
            assert(scan(s, n) == Some(Compiled { text: seq![], args: seq![] }));
        } else {
            lemma_step_advances(s, j);
            match step(s, j) {
                Some(st) => {
                    let at_i = step(s, i)->0;
                    assert(at_i.next == st.next);
                    assert(at_i.args == st.args);
                    assert(s.subrange(i, open) == s.subrange(i, j) + s.subrange(j, open));
                    assert(at_i.text == head.text + st.text);
                    if let Some(c) = scan(s, st.next) {
                        assert(head.text + (st.text + c.text) == head.text + st.text + c.text);
                        assert(head.args + (st.args + c.args) == st.args + c.args);
                    }
                },
                None => {},
            }
        }
    }
}

/// A literal without `{` compiles to itself and has no arguments.
pub proof fn lemma_plain(s: Seq<u8>)
    requires
        forall|k: int| 0 <= k < s.len() ==> s[k] != OPEN,
    ensures
        compile(s) == Some(Compiled { text: s, args: seq![] }),
{
    lemma_text_first(s, 0, s.len() as int);
    assert(s.subrange(0, s.len() as int) == s);
    assert(scan(s, s.len() as int) == Some(Compiled { text: seq![], args: seq![] }));
    assert(s + Seq::<u8>::empty() == s);
}

/// `st` as a step of a literal that has `by` more bytes in front.
spec fn moved(st: Option<Step>, by: int) -> Option<Step> {
    match st {
        Some(st) => Some(
            Step {
                kind: st.kind,
                text: st.text,
                args: shifted(Some(Compiled { text: st.text, args: st.args }), by)->0.args,
                next: st.next + by,
            },
        ),
        None => None,
    }
}

/// A step looks at nothing in front of its position.
proof fn lemma_step_behind(a: Seq<u8>, b: Seq<u8>, i: int)
    requires
        0 <= i <= b.len(),
    ensures
        step(a + b, a.len() + i) == moved(step(b, i), a.len() as int),
{
    let s = a + b;
    let d = a.len() as int;
    let n = b.len() as int;
    assert forall|k: int| 0 <= k < n implies b[k] == s[k + d] by {}
    lemma_find_moved(b, s, OPEN, i, n, d);
    lemma_find(b, OPEN, i, n);
    let open = find(b, OPEN, i, n);
    assert(s.subrange(d + i, d + open) == b.subrange(i, open));
    if open < n {
        lemma_find_moved(b, s, CLOSE, open + 1, n, d);
        lemma_find(b, CLOSE, open + 1, n);
        let close = find(b, CLOSE, open + 1, n);
        if close < n {
            lemma_find_moved(b, s, COLON, open + 1, close, d);
            lemma_find(b, COLON, open + 1, close);
            let colon = find(b, COLON, open + 1, close);
            assert(s.subrange(d + colon, d + close) == b.subrange(colon, close));
            assert(s.subrange(d + open + 1, d + colon) == b.subrange(open + 1, colon));
        }
    }
    if let Some(st) = step(b, i) {
        assert(step(s, d + i) is Some);
        assert(step(s, d + i)->0.args == moved(step(b, i), d)->0.args);
    }
}

/// Shifting goes through a join.
proof fn lemma_shifted_join(head: Compiled, rest: Option<Compiled>, by: int)
    ensures
        shifted(join(head, rest), by) == join(shifted(Some(head), by)->0, shifted(rest, by)),
{
    if let Some(c) = rest {
        assert(shifted(join(head, rest), by)->0.args == shifted(Some(head), by)->0.args + shifted(
            rest,
            by,
        )->0.args);
    }
}

/// A scan looks at nothing in front of its position: behind a prefix `a`, the
/// literal `b` compiles as it does alone, with every offset `a.len()` larger.
pub proof fn lemma_scan_behind(a: Seq<u8>, b: Seq<u8>, i: int)
    requires
        0 <= i <= b.len(),
    ensures
        scan(a + b, a.len() + i) == shifted(scan(b, i), a.len() as int),
    decreases b.len() - i,
{
    let d = a.len() as int;
    if i < b.len() {
        lemma_step_behind(a, b, i);
        lemma_step_advances(b, i);
        if let Some(st) = step(b, i) {
            lemma_scan_behind(a, b, st.next);
            lemma_shifted_join(Compiled { text: st.text, args: st.args }, scan(b, st.next), d);
        }
    } else {
        assert(shifted(scan(b, i), d)->0.args == Seq::<Placeholder>::empty());
    }
}

/// `b` can follow a literal whose scan from `i` is that of `a`: it does not put a
/// second `}` behind a placeholder on which `a` ends.
pub open spec fn follows(a: Seq<u8>, i: int, b: Seq<u8>) -> bool {
    ends_in_slot(a, i) ==> b.len() == 0 || b[0] != CLOSE
}

/// A step that meets a brace in `a` is the same step when `b` follows.
proof fn lemma_step_ahead(a: Seq<u8>, b: Seq<u8>, i: int)
    requires
        0 <= i < a.len(),
        step(a, i) is Some,
        step(a, i)->0.kind != Kind::Tail,
        follows(a, i, b),
    ensures
        step(a + b, i) == step(a, i),
{
    let s = a + b;
    let n = a.len() as int;
    let m = s.len() as int;
    assert forall|k: int| 0 <= k < n implies a[k] == s[k + 0] by {}
    lemma_find(a, OPEN, i, n);
    let open = find(a, OPEN, i, n);
    lemma_find_moved(a, s, OPEN, i, n, 0);
    lemma_find_split(s, OPEN, i, n, m);
    assert(find(s, OPEN, i, m) == open);
    assert(s.subrange(i, open) == a.subrange(i, open));
    lemma_find(a, CLOSE, open + 1, n);
    let close = find(a, CLOSE, open + 1, n);
    if open + 1 < n && a[open + 1] == OPEN {
    } else {
        assert(close < n);
        lemma_find_moved(a, s, CLOSE, open + 1, n, 0);
        lemma_find_split(s, CLOSE, open + 1, n, m);
        assert(find(s, CLOSE, open + 1, m) == close);
        lemma_find(a, COLON, open + 1, close);
        let colon = find(a, COLON, open + 1, close);
        lemma_find_moved(a, s, COLON, open + 1, close, 0);
        assert(s.subrange(colon, close) == a.subrange(colon, close));
        assert(s.subrange(open + 1, colon) == a.subrange(open + 1, colon));
        if close + 1 == n {
            assert(step(a, i)->0.kind == Kind::Slot);
            assert(kinds(a, n) == Seq::<Kind>::empty());
            assert(kinds(a, i) == seq![Kind::Slot]);
            assert(ends_in_slot(a, i));
        }
    }
}

/// Joining goes through a chain.
proof fn lemma_chain_join(head: Compiled, mid: Option<Compiled>, rest: Option<Compiled>)
    ensures
        chain(join(head, mid), rest) == join(head, chain(mid, rest)),
{
    if let Some(m) = mid {
        if let Some(r) = rest {
            assert(head.text + m.text + r.text == head.text + (m.text + r.text));
            assert(head.args + m.args + r.args == head.args + (m.args + r.args));
        }
    }
}

/// Where the scan of `a` from `i` succeeds and `b` can follow it, the scan of
/// `a + b` from `i` is that of `a`, then that of `a + b` from the end of `a`.
proof fn lemma_scan_ahead(a: Seq<u8>, b: Seq<u8>, i: int)
    requires
        0 <= i <= a.len(),
        scan(a, i) is Some,
        follows(a, i, b),
    ensures
        scan(a + b, i) == chain(scan(a, i), scan(a + b, a.len() as int)),
    decreases a.len() - i,
{
    let s = a + b;
    let n = a.len() as int;
    let rest = scan(s, n);
    if i == n {
        if let Some(r) = rest {
            assert(Seq::<u8>::empty() + r.text == r.text);
            assert(Seq::<Placeholder>::empty() + r.args == r.args);
        }
    } else {
        lemma_step_advances(a, i);
        let st = step(a, i)->0;
        let head = Compiled { text: st.text, args: st.args };
        if st.kind == Kind::Tail {
            lemma_find(a, OPEN, i, n);
            assert forall|k: int| i <= k < n implies s[k] != OPEN by {
                assert(s[k] == a[k]);
            }
            lemma_text_first(s, i, n);
            assert(s.subrange(i, n) == a.subrange(i, n));
            assert(scan(a, n) == Some(Compiled { text: seq![], args: seq![] }));
            assert(head.text + Seq::<u8>::empty() == head.text);
            assert(head.args + Seq::<Placeholder>::empty() == head.args);
        } else {
            lemma_step_ahead(a, b, i);
            assert(kinds(a, i) == seq![st.kind] + kinds(a, st.next));
            if ends_in_slot(a, st.next) {
                assert(kinds(a, i).last() == kinds(a, st.next).last());
            }
            lemma_scan_ahead(a, b, st.next);
            lemma_chain_join(head, scan(a, st.next), rest);
        }
    }
}

/// The compiled form of a concatenation: that of `a`, then that of `b` with its
/// offsets moved behind `a`. This holds where `a` is well formed and `b` does not
/// put a second `}` behind a placeholder on which `a` ends.
pub proof fn lemma_concat(a: Seq<u8>, b: Seq<u8>)
    requires
        compile(a) is Some,
        follows(a, 0, b),
    ensures
        compile(a + b) == chain(compile(a), shifted(compile(b), a.len() as int)),
{
    lemma_scan_ahead(a, b, 0);
    lemma_scan_behind(a, b, 0);
}

/// `find` returns `at` where `at` is the first hit, or the end with no hit.
proof fn lemma_find_at(s: Seq<u8>, b: u8, from: int, to: int, at: int)
    requires
        0 <= from <= at <= to <= s.len(),
        forall|k: int| from <= k < at ==> s[k] != b,
        at < to ==> s[at] == b,
    ensures
        find(s, b, from, to) == at,
    decreases to - from,
{
    if from < at {
        lemma_find_at(s, b, from + 1, to, at);
    }
}

/// Shifting twice is shifting by the sum.
proof fn lemma_shifted_twice(c: Option<Compiled>, p: int, q: int)
    ensures
        shifted(shifted(c, p), q) == shifted(c, p + q),
{
    if let Some(c) = c {
        assert(shifted(shifted(Some(c), p), q)->0.args == shifted(Some(c), p + q)->0.args);
    }
}

/// The escape `{{` is kept as it stands and takes no argument: around it, the
/// parts compile as they do alone.
pub proof fn lemma_escape_kept(a: Seq<u8>, b: Seq<u8>)
    requires
        compile(a) is Some,
    ensures
        compile(a + seq![OPEN, OPEN] + b) == chain(
            compile(a),
            join(
                Compiled { text: seq![OPEN, OPEN], args: seq![] },
                shifted(compile(b), a.len() as int + 2),
            ),
        ),
{
    let e = seq![OPEN, OPEN];
    let head = Compiled { text: e, args: seq![] };
    assert(a + e + b == a + (e + b));
    assert(ends_in_slot(a, 0) ==> (e + b)[0] != CLOSE);
    lemma_concat(a, e + b);
    lemma_find_at(e + b, OPEN, 0, (e + b).len() as int, 0);
    assert((e + b)[1] == OPEN);
    assert((e + b).subrange(0, 0) + e == e);
    lemma_scan_behind(e, b, 0);
    assert(compile(e + b) == join(head, shifted(compile(b), 2)));
    lemma_shifted_join(head, shifted(compile(b), 2), a.len() as int);
    lemma_shifted_twice(compile(b), 2, a.len() as int);
    assert(shifted(Some(head), a.len() as int)->0.args == head.args);
}

/// A pair `}}` in plain text is kept as it stands and takes no argument. This
/// holds where `a` does not end on a placeholder (behind one, the first `}` of the
/// pair would be read as the second brace of a dropped placeholder).
pub proof fn lemma_closing_pair_kept(a: Seq<u8>, b: Seq<u8>)
    requires
        compile(a) is Some,
        !ends_in_slot(a, 0),
    ensures
        compile(a + seq![CLOSE, CLOSE] + b) == chain(
            compile(a),
            join(
                Compiled { text: seq![CLOSE, CLOSE], args: seq![] },
                shifted(compile(b), a.len() as int + 2),
            ),
        ),
{
    let e = seq![CLOSE, CLOSE];
    let head = Compiled { text: e, args: seq![] };
    assert(a + e + b == a + (e + b));
    lemma_concat(a, e + b);
    lemma_text_first(e + b, 0, 2);
    assert((e + b).subrange(0, 2) == e);
    lemma_scan_behind(e, b, 0);
    assert(compile(e + b) == join(head, shifted(compile(b), 2)));
    lemma_shifted_join(head, shifted(compile(b), 2), a.len() as int);
    lemma_shifted_twice(compile(b), 2, a.len() as int);
    assert(shifted(Some(head), a.len() as int)->0.args == head.args);
}

/// `name` can stand in a placeholder: it holds no `}` and no `:`, and does not
/// begin with `{`.
pub open spec fn is_name(name: Seq<u8>) -> bool {
    &&& forall|k: int| 0 <= k < name.len() ==> name[k] != CLOSE && name[k] != COLON
    &&& name.len() > 0 ==> name[0] != OPEN
}

/// `fmt` is what a placeholder keeps behind its name: nothing, or `:` and a
/// format spec without `}`.
pub open spec fn is_format(fmt: Seq<u8>) -> bool {
    &&& forall|k: int| 0 <= k < fmt.len() ==> fmt[k] != CLOSE
    &&& fmt.len() > 0 ==> fmt[0] == COLON
}

/// A placeholder `{name}` or `{name:spec}` between `a` and `b` is emitted without
/// its name, where the template of `a` ends, and `name` is recorded behind the
/// arguments of `a` with the offset of its first byte. This holds where `a` is
/// well formed and `b` does not begin with `}`.
pub proof fn lemma_placeholder(a: Seq<u8>, name: Seq<u8>, fmt: Seq<u8>, b: Seq<u8>)
    requires
        compile(a) is Some,
        is_name(name),
        is_format(fmt),
        b.len() > 0 ==> b[0] != CLOSE,
    ensures
        compile(a + seq![OPEN] + name + fmt + seq![CLOSE] + b) == chain(
            compile(a),
            join(
                Compiled {
                    text: seq![OPEN] + fmt + seq![CLOSE],
                    args: seq![Placeholder { name, offset: a.len() as int + 1 }],
                },
                shifted(compile(b), (a.len() + name.len() + fmt.len() + 2) as int),
            ),
        ),
{
    let m = seq![OPEN] + name + fmt + seq![CLOSE];
    let s = m + b;
    let colon = 1 + name.len() as int;
    let close = colon + fmt.len();
    let here = Compiled {
        text: seq![OPEN] + fmt + seq![CLOSE],
        args: seq![Placeholder { name, offset: 1 }],
    };
    assert(a + seq![OPEN] + name + fmt + seq![CLOSE] + b == a + s);
    assert(ends_in_slot(a, 0) ==> s[0] != CLOSE);
    lemma_concat(a, s);
    assert forall|k: int| 1 <= k < colon implies s[k] != CLOSE && s[k] != COLON by {
        assert(s[k] == name[k - 1]);
    }
    assert forall|k: int| colon <= k < close implies s[k] != CLOSE by {
        assert(s[k] == fmt[k - colon]);
    }
    assert(s[close] == CLOSE);
    lemma_find_at(s, OPEN, 0, s.len() as int, 0);
    lemma_find_at(s, CLOSE, 1, s.len() as int, close);
    lemma_find_at(s, COLON, 1, close, colon);
    assert(s.subrange(colon, close) == fmt);
    assert(s.subrange(1, colon) == name);
    assert(s.subrange(0, 0) + seq![OPEN] + fmt + seq![CLOSE] == here.text);
    assert(step(s, 0) == Some(
        Step { kind: Kind::Slot, text: here.text, args: here.args, next: close + 1 },
    ));
    lemma_scan_behind(m, b, 0);
    assert(compile(s) == join(here, shifted(compile(b), close + 1)));
    lemma_shifted_join(here, shifted(compile(b), close + 1), a.len() as int);
    lemma_shifted_twice(compile(b), close + 1, a.len() as int);
    assert(shifted(Some(here), a.len() as int)->0.args == seq![
        Placeholder { name, offset: a.len() as int + 1 },
    ]);
}

/// The arguments `args` lie in `s` behind position `i`, one behind the other:
/// each name stands in `s` at its offset, directly behind a `{`, and ends in
/// front of the `{` of the next.
pub open spec fn in_source_order(s: Seq<u8>, i: int, args: Seq<Placeholder>) -> bool {
    &&& forall|k: int|
        0 <= k < args.len() ==> {
            &&& i < (#[trigger] args[k]).offset
            &&& args[k].offset + args[k].name.len() < s.len()
            &&& s[args[k].offset - 1] == OPEN
            &&& s.subrange(args[k].offset, args[k].offset + args[k].name.len()) == args[k].name
        }
    &&& forall|j: int, k: int|
        0 <= j < k < args.len() ==> (#[trigger] args[j]).offset + args[j].name.len() < (
        #[trigger] args[k]).offset - 1
}

/// The arguments of a scan come in the order in which their placeholders stand
/// in the literal.
proof fn lemma_scan_in_order(s: Seq<u8>, i: int)
    requires
        0 <= i <= s.len(),
        scan(s, i) is Some,
    ensures
        in_source_order(s, i, scan(s, i)->0.args),
    decreases s.len() - i,
{
    let n = s.len() as int;
    if i < n {
        lemma_step_advances(s, i);
        let st = step(s, i)->0;
        let rest = scan(s, st.next)->0;
        let args = scan(s, i)->0.args;
        lemma_scan_in_order(s, st.next);
        lemma_find(s, OPEN, i, n);
        let open = find(s, OPEN, i, n);
        if open < n {
            lemma_find(s, CLOSE, open + 1, n);
            let close = find(s, CLOSE, open + 1, n);
            if close < n {
                lemma_find(s, COLON, open + 1, close);
            }
        }
        assert(args == st.args + rest.args);
        assert forall|k: int| 0 <= k < args.len() implies {
            &&& i < (#[trigger] args[k]).offset
            &&& args[k].offset + args[k].name.len() < s.len()
            &&& s[args[k].offset - 1] == OPEN
            &&& s.subrange(args[k].offset, args[k].offset + args[k].name.len()) == args[k].name
        } by {
            if k >= st.args.len() {
                assert(args[k] == rest.args[k - st.args.len()]);
            }
        }
        assert forall|j: int, k: int| 0 <= j < k < args.len() implies (#[trigger] args[j]).offset
            + args[j].name.len() < (#[trigger] args[k]).offset - 1 by {
            assert(args[k] == rest.args[k - st.args.len()]);
            if j >= st.args.len() {
                assert(args[j] == rest.args[j - st.args.len()]);
            }
        }
    }
}

/// The arguments of a compiled literal come in the order in which their
/// placeholders stand in it.
pub proof fn lemma_args_in_order(s: Seq<u8>)
    requires
        compile(s) is Some,
    ensures
        in_source_order(s, 0, compile(s)->0.args),
{
    lemma_scan_in_order(s, 0);
}

/// `t` is a positional template with `n` placeholders: the scanner finds `n`
/// placeholders in it, none with a name, and leaves the text as it is.
pub open spec fn is_template(t: Seq<u8>, n: nat) -> bool {
    compile(t) matches Some(d) && d.text == t && d.args.len() == n && forall|k: int|
        0 <= k < n ==> (#[trigger] d.args[k]).name.len() == 0
}

/// A literal whose scan ends behind a placeholder ends on `}`.
proof fn lemma_slot_end(s: Seq<u8>, i: int)
    requires
        0 <= i <= s.len(),
        scan(s, i) is Some,
        ends_in_slot(s, i),
    ensures
        s.len() > 0,
        s.last() == CLOSE,
    decreases s.len() - i,
{
    let n = s.len() as int;
    if i < n {
        lemma_step_advances(s, i);
        let st = step(s, i)->0;
        assert(kinds(s, i) == seq![st.kind] + kinds(s, st.next));
        if kinds(s, st.next).len() > 0 {
            assert(kinds(s, i).last() == kinds(s, st.next).last());
            lemma_slot_end(s, st.next);
        } else {
            lemma_find(s, OPEN, i, n);
            lemma_find(s, CLOSE, find(s, OPEN, i, n) + 1, n);
        }
    }
}

/// The template that a scan without dropped placeholders puts out holds one
/// nameless placeholder for each argument, and begins as the scanned text does.
proof fn lemma_scan_template(s: Seq<u8>, i: int)
    requires
        0 <= i <= s.len(),
        scan(s, i) is Some,
        !kinds(s, i).contains(Kind::Dropped),
    ensures
        is_template(scan(s, i)->0.text, scan(s, i)->0.args.len()),
        scan(s, i)->0.text.len() > 0 ==> i < s.len() && scan(s, i)->0.text[0] == s[i],
    decreases s.len() - i,
{
    let n = s.len() as int;
    let none = Seq::<u8>::empty();
    if i < n {
        lemma_step_advances(s, i);
        let st = step(s, i)->0;
        let rest = scan(s, st.next)->0;
        let c = scan(s, i)->0;
        assert(kinds(s, i) == seq![st.kind] + kinds(s, st.next));
        assert(kinds(s, i)[0] == st.kind);
        assert(!kinds(s, st.next).contains(Kind::Dropped)) by {
            if kinds(s, st.next).contains(Kind::Dropped) {
                let at = choose|at: int|
                    0 <= at < kinds(s, st.next).len() && kinds(s, st.next)[at] == Kind::Dropped;
                assert(kinds(s, i)[at + 1] == Kind::Dropped);
            }
        }
        lemma_scan_template(s, st.next);
        lemma_find(s, OPEN, i, n);
        let open = find(s, OPEN, i, n);
        let plain = s.subrange(i, open);
        lemma_plain(plain);
        assert(compile(none) == Some(Compiled { text: none, args: seq![] }));
        if st.kind == Kind::Tail {
            assert(c.text == st.text);
            assert(c.args == Seq::<Placeholder>::empty());
        } else {
            if st.kind == Kind::Escape {
                lemma_escape_kept(plain, none);
                assert(plain + seq![OPEN, OPEN] + none == st.text);
                assert(compile(st.text) == Some(Compiled { text: st.text, args: seq![] }));
                if ends_in_slot(st.text, 0) {
                    lemma_slot_end(st.text, 0);
                }
            } else {
                lemma_find(s, CLOSE, open + 1, n);
                let close = find(s, CLOSE, open + 1, n);
                lemma_find(s, COLON, open + 1, close);
                let fmt = s.subrange(find(s, COLON, open + 1, close), close);
                lemma_placeholder(plain, none, fmt, none);
                assert(plain + seq![OPEN] + none + fmt + seq![CLOSE] + none == st.text);
                assert(plain + (seq![OPEN] + fmt + seq![CLOSE]) == st.text);
                assert(compile(st.text)->0.text == st.text);
                assert(compile(st.text)->0.args.len() == 1);
                assert(compile(st.text)->0.args[0].name.len() == 0);
            }
            lemma_concat(st.text, rest.text);
            let front = compile(st.text)->0;
            let back = shifted(compile(rest.text), st.text.len() as int)->0;
            assert(compile(c.text) == Some(
                Compiled { text: front.text + back.text, args: front.args + back.args },
            ));
            assert forall|k: int| 0 <= k < c.args.len() implies (#[trigger] compile(
                c.text,
            )->0.args[k]).name.len() == 0 by {
                if k >= front.args.len() {
                    assert(compile(c.text)->0.args[k] == back.args[k - front.args.len()]);
                }
            }
        }
    }
}

/// The template of a literal is a positional template with as many placeholders
/// as the literal has arguments. This holds where no placeholder is dropped: the
/// text behind a dropped one may put a `}` directly behind an emitted one.
pub proof fn lemma_template_fixed(s: Seq<u8>)
    requires
        compile(s) is Some,
        !drops(s),
    ensures
        is_template(compile(s)->0.text, compile(s)->0.args.len()),
{
    lemma_scan_template(s, 0);
}

} // verus!
