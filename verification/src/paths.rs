//! Virtual path handling: normalisation of user supplied paths, overlap and
//! containment tests, file-name sanitising and exclusion pattern rewriting.
use vstd::prelude::*;
use crate::exclude::strip_trailing_slashes;
use crate::text::{
    append_chars, chars_of, has_prefix, join, join_chars, split, split_chars, starts_with_chars,
    string_of, trim, trim_chars, views,
};

verus! {

/// Backslashes turned into forward slashes.
pub open spec fn slashes(s: Seq<char>) -> Seq<char> {
    s.map_values(|c: char| if c == '\\' { '/' } else { c })
}

fn slashes_exec(s: &[char]) -> (r: Vec<char>)
    ensures
        r@ == slashes(s@),
{
    let mut r: Vec<char> = Vec::new();
    let mut i: usize = 0;
    while i < s.len()
        invariant
            i <= s@.len(),
            r@ == slashes(s@.subrange(0, i as int)),
        decreases s@.len() - i,
    {
        let c = s[i];
        r.push(if c == '\\' { '/' } else { c });
        i = i + 1;
        assert(r@ =~= slashes(s@.subrange(0, i as int)));
    }
    assert(s@.subrange(0, s@.len() as int) =~= s@);
    r
}

/// The `.` component.
pub open spec fn dot() -> Seq<char> {
    seq!['.']
}

/// The `..` component.
pub open spec fn dot_dot() -> Seq<char> {
    seq!['.', '.']
}

/// Walks path components: empty and `.` components are skipped, `..` drops
/// the last kept component (if any), everything else is kept.
pub open spec fn resolve(comps: Seq<Seq<char>>) -> Seq<Seq<char>>
    decreases comps.len(),
{
    if comps.len() == 0 {
        Seq::<Seq<char>>::empty()
    } else {
        let st = resolve(comps.drop_last());
        let c = comps.last();
        if c.len() == 0 || c == dot() {
            st
        } else if c == dot_dot() {
            if st.len() > 0 {
                st.drop_last()
            } else {
                st
            }
        } else {
            st.push(c)
        }
    }
}

/// The normalised form of a path: surrounding whitespace removed, `\` read
/// as `/`, components resolved, absolute paths kept absolute; an empty result
/// is `/`. (Repeated and trailing separators only produce empty components,
/// which resolving skips.)
pub open spec fn normalized(p: Seq<char>) -> Seq<char> {
    let t = trim(p);
    if t.len() == 0 {
        seq!['/']
    } else {
        let r = slashes(t);
        let body = join(resolve(split(r, '/')), seq!['/']);
        let n = if r[0] == '/' {
            seq!['/'] + body
        } else {
            body
        };
        if n.len() == 0 {
            seq!['/']
        } else {
            n
        }
    }
}

/// Normalises a user supplied path (see [`normalized`]).
pub fn normalize_path(path: &str) -> (r: String)
    ensures
        r@ == normalized(path@),
{
    let chars = chars_of(path);
    let t = trim_chars(&chars);
    if t.len() == 0 {
        let v = vec!['/'];
        assert(v@ =~= seq!['/']);
        return string_of(&v);
    }
    let r = slashes_exec(&t);
    let comps = split_chars(&r, '/');
    let mut stack: Vec<Vec<char>> = Vec::new();
    let mut i: usize = 0;
    while i < comps.len()
        invariant
            i <= comps@.len(),
            views(stack@) == resolve(views(comps@).subrange(0, i as int)),
        decreases comps@.len() - i,
    {
        let c = &comps[i];
        let ghost pre = views(comps@).subrange(0, i as int);
        assert(views(comps@).subrange(0, i + 1).drop_last() =~= pre);
        assert(views(comps@).subrange(0, i + 1).last() == c@);
        let is_dot = c.len() == 1 && c[0] == '.';
        let is_dot_dot = c.len() == 2 && c[0] == '.' && c[1] == '.';
        assert(is_dot == (c@ == dot())) by {
            if c@.len() == 1 && c@[0] == '.' {
                assert(c@ =~= dot());
            }
        }
        assert(is_dot_dot == (c@ == dot_dot())) by {
            if c@.len() == 2 && c@[0] == '.' && c@[1] == '.' {
                assert(c@ =~= dot_dot());
            }
        }
        let ghost before = views(stack@);
        if c.len() == 0 || is_dot {
        } else if is_dot_dot {
            if stack.len() > 0 {
                stack.pop();
                assert(views(stack@) =~= before.drop_last());
            }
        } else {
            stack.push(copy_chars(c));
            assert(views(stack@) =~= before.push(c@));
        }
        i = i + 1;
    }
    assert(views(comps@).subrange(0, comps@.len() as int) =~= views(comps@));
    let sep = vec!['/'];
    let body = join_chars(&stack, &sep);
    assert(sep@ =~= seq!['/']);
    let mut n: Vec<char> = Vec::new();
    if r[0] == '/' {
        n.push('/');
    }
    append_chars(&mut n, &body);
    assert(r@[0] == '/' ==> n@ =~= seq!['/'] + body@);
    assert(r@[0] != '/' ==> n@ =~= body@);
    if n.len() == 0 {
        n.push('/');
        assert(n@ =~= seq!['/']);
    }
    string_of(&n)
}

fn copy_chars(v: &Vec<char>) -> (r: Vec<char>)
    ensures
        r@ == v@,
{
    let mut r: Vec<char> = Vec::new();
    append_chars(&mut r, v);
    assert(r@ =~= v@);
    r
}

// ==================== normalising twice ====================

/// A component that resolving keeps as it is and that holds no separator.
pub open spec fn clean_comp(c: Seq<char>) -> bool {
    c.len() > 0 && c != dot() && c != dot_dot() && !c.contains('/') && !c.contains('\\')
}

proof fn lemma_split_concat(a: Seq<char>, b: Seq<char>, sep: char)
    ensures
        split(a + seq![sep] + b, sep) == split(a, sep) + split(b, sep),
    decreases b.len(),
{
    let s = a + seq![sep] + b;
    if b.len() == 0 {
        assert(s.drop_last() =~= a);
        assert(split(a, sep).push(Seq::<char>::empty()) =~= split(a, sep) + split(b, sep));
    } else {
        let b0 = b.drop_last();
        lemma_split_concat(a, b0, sep);
        assert(s.drop_last() =~= a + seq![sep] + b0);
        assert(s.last() == b.last());
        crate::text::lemma_split_nonempty(b0, sep);
        let left = split(a, sep);
        let right = split(b0, sep);
        if b.last() == sep {
            assert((left + right).push(Seq::<char>::empty()) =~= left + right.push(Seq::<char>::empty()));
        } else {
            let whole = left + right;
            assert(whole.update(whole.len() - 1, whole.last().push(b.last())) =~= left + right.update(
                right.len() - 1,
                right.last().push(b.last()),
            ));
        }
    }
}

proof fn lemma_split_pieces(s: Seq<char>, sep: char, c: char)
    requires
        !s.contains(c),
    ensures
        forall|i: int|
            0 <= i < split(s, sep).len() ==> !(#[trigger] split(s, sep)[i]).contains(c)
                && !split(s, sep)[i].contains(sep),
    decreases s.len(),
{
    if s.len() > 0 {
        let init = s.drop_last();
        assert(!init.contains(c)) by {
            if init.contains(c) {
                let k = choose|k: int| 0 <= k < init.len() && init[k] == c;
                assert(s[k] == c);
            }
        }
        lemma_split_pieces(init, sep, c);
        crate::text::lemma_split_nonempty(init, sep);
        let ps = split(init, sep);
        if s.last() != sep {
            let x = s.last();
            assert(x != c) by {
                assert(s[s.len() - 1] == x);
            }
            let grown = ps.last().push(x);
            assert(!grown.contains(c) && !grown.contains(sep)) by {
                assert forall|k: int| 0 <= k < grown.len() implies grown[k] != c && grown[k] != sep by {
                    if k < grown.len() - 1 {
                        assert(grown[k] == ps.last()[k]);
                        assert(ps.last() == ps[ps.len() - 1]);
                    }
                }
            }
        } else {
            assert(!Seq::<char>::empty().contains(c) && !Seq::<char>::empty().contains(sep));
        }
    }
}

proof fn lemma_slashes_clean(s: Seq<char>)
    ensures
        !slashes(s).contains('\\'),
        !s.contains('\\') ==> slashes(s) == s,
{
    if !s.contains('\\') {
        assert forall|k: int| 0 <= k < s.len() implies slashes(s)[k] == s[k] by {
            assert(s[k] != '\\');
        }
        assert(slashes(s) =~= s);
    }
}

proof fn lemma_resolve_keeps(comps: Seq<Seq<char>>)
    requires
        forall|i: int|
            0 <= i < comps.len() ==> !(#[trigger] comps[i]).contains('/') && !comps[i].contains('\\'),
    ensures
        forall|i: int| 0 <= i < resolve(comps).len() ==> clean_comp(#[trigger] resolve(comps)[i]),
    decreases comps.len(),
{
    if comps.len() > 0 {
        let init = comps.drop_last();
        assert forall|i: int| 0 <= i < init.len() implies !(#[trigger] init[i]).contains('/')
            && !init[i].contains('\\') by {
            assert(init[i] == comps[i]);
        }
        lemma_resolve_keeps(init);
        assert(comps.last() == comps[comps.len() - 1]);
        let st = resolve(init);
        let c = comps.last();
        let out = resolve(comps);
        assert forall|i: int| 0 <= i < out.len() implies clean_comp(#[trigger] out[i]) by {
            if i < st.len() {
                if c.len() == 0 || c == dot() {
                    assert(out[i] == st[i]);
                } else if c == dot_dot() {
                    assert(out[i] == st[i]);
                } else {
                    assert(out[i] == st.push(c)[i]);
                }
            } else {
                assert(out[i] == c);
            }
        }
    }
}

proof fn lemma_resolve_identity(cs: Seq<Seq<char>>)
    requires
        forall|i: int| 0 <= i < cs.len() ==> clean_comp(#[trigger] cs[i]),
    ensures
        resolve(cs) == cs,
    decreases cs.len(),
{
    if cs.len() > 0 {
        let init = cs.drop_last();
        assert forall|i: int| 0 <= i < init.len() implies clean_comp(#[trigger] init[i]) by {
            assert(init[i] == cs[i]);
        }
        lemma_resolve_identity(init);
        assert(clean_comp(cs[cs.len() - 1]));
        assert(init.push(cs.last()) =~= cs);
    }
}

proof fn lemma_resolve_skip_empty(s: Seq<Seq<char>>)
    ensures
        resolve(seq![Seq::<char>::empty()] + s) == resolve(s),
    decreases s.len(),
{
    let e = seq![Seq::<char>::empty()];
    assert(e.drop_last() =~= Seq::<Seq<char>>::empty());
    assert(e.last() =~= Seq::<char>::empty());
    assert(resolve(e) == resolve(e.drop_last()));
    assert(resolve(e) =~= Seq::<Seq<char>>::empty());
    if s.len() == 0 {
        assert(e + s =~= e);
    } else {
        lemma_resolve_skip_empty(s.drop_last());
        assert((e + s).drop_last() =~= e + s.drop_last());
        assert((e + s).last() == s.last());
        assert(resolve(e + s) == resolve(s));
    }
}

proof fn lemma_join_split(cs: Seq<Seq<char>>)
    requires
        cs.len() >= 1,
        forall|i: int| 0 <= i < cs.len() ==> !(#[trigger] cs[i]).contains('/'),
    ensures
        split(join(cs, seq!['/']), '/') == cs,
    decreases cs.len(),
{
    if cs.len() == 1 {
        assert(cs[0] == cs[0]);
        crate::text::lemma_split_no_sep(cs[0], '/');
        assert(seq![cs[0]] =~= cs);
    } else {
        let init = cs.drop_last();
        assert forall|i: int| 0 <= i < init.len() implies !(#[trigger] init[i]).contains('/') by {
            assert(init[i] == cs[i]);
        }
        lemma_join_split(init);
        assert(cs.last() == cs[cs.len() - 1]);
        lemma_split_concat(join(init, seq!['/']), cs.last(), '/');
        crate::text::lemma_split_no_sep(cs.last(), '/');
        assert(init + seq![cs.last()] =~= cs);
    }
}

proof fn lemma_join_shape(cs: Seq<Seq<char>>)
    requires
        cs.len() >= 1,
        forall|i: int| 0 <= i < cs.len() ==> clean_comp(#[trigger] cs[i]),
    ensures
        !join(cs, seq!['/']).contains('\\'),
        join(cs, seq!['/']).len() > 0,
        join(cs, seq!['/'])[0] == cs[0][0],
    decreases cs.len(),
{
    assert(clean_comp(cs[0]));
    if cs.len() > 1 {
        let init = cs.drop_last();
        assert forall|i: int| 0 <= i < init.len() implies clean_comp(#[trigger] init[i]) by {
            assert(init[i] == cs[i]);
        }
        lemma_join_shape(init);
        let j = join(init, seq!['/']);
        let l = cs.last();
        assert(clean_comp(cs[cs.len() - 1]));
        let whole = j + seq!['/'] + l;
        assert forall|k: int| 0 <= k < whole.len() implies whole[k] != '\\' by {
            if k < j.len() {
                assert(whole[k] == j[k]);
            } else if k > j.len() {
                assert(whole[k] == l[k - j.len() - 1]);
            }
        }
        assert(init[0] == cs[0]);
    }
}

/// Law: normalising a normalised path changes nothing, unless the first
/// normalisation left whitespace at its start or end (which the second one
/// trims).
pub proof fn law_normalize_idempotent(p: Seq<char>)
    requires
        trim(normalized(p)) == normalized(p),
    ensures
        normalized(normalized(p)) == normalized(p),
{
    let n = normalized(p);
    let root = seq!['/'];
    let e = Seq::<char>::empty();
    // The root path normalises to itself.
    assert(root =~= e + seq!['/'] + e);
    lemma_split_concat(e, e, '/');
    assert(split(e, '/') =~= seq![e]);
    assert(split(root, '/') =~= seq![e, e]);
    assert(seq![e, e].drop_last() =~= seq![e]);
    assert(seq![e].drop_last() =~= Seq::<Seq<char>>::empty());
    assert(seq![e].last() == e);
    assert(seq![e, e].last() == e);
    assert(resolve(Seq::<Seq<char>>::empty()) =~= Seq::<Seq<char>>::empty());
    assert(resolve(seq![e]) == resolve(seq![e].drop_last()));
    assert(resolve(seq![e]) =~= Seq::<Seq<char>>::empty());
    assert(resolve(seq![e, e]) == resolve(seq![e, e].drop_last()));
    assert(resolve(seq![e, e]) =~= Seq::<Seq<char>>::empty());
    lemma_slashes_clean(root);
    assert(!root.contains('\\')) by {
        assert(root[0] == '/');
    }
    assert(slashes(root) == root);
    crate::text::lemma_lead_ws_char(root, 0);
    crate::text::lemma_trail_ws_char(root, 0);
    assert(trim(root) =~= root);
    assert(normalized(root) =~= root);
    let t = trim(p);
    if t.len() > 0 {
        let r = slashes(t);
        lemma_slashes_clean(t);
        let ps = split(r, '/');
        lemma_split_pieces(r, '/', '\\');
        lemma_resolve_keeps(ps);
        let comps = resolve(ps);
        if comps.len() > 0 {
            let body = join(comps, seq!['/']);
            lemma_join_shape(comps);
            assert forall|i: int| 0 <= i < comps.len() implies !(#[trigger] comps[i]).contains('/') by {
                assert(clean_comp(comps[i]));
            }
            lemma_join_split(comps);
            lemma_resolve_identity(comps);
            assert(clean_comp(comps[0]));
            assert(comps[0][0] != '/') by {
                if comps[0][0] == '/' {
                    assert(comps[0].contains('/'));
                }
            }
            if r[0] == '/' {
                assert(n == root + body);
                assert(!n.contains('\\')) by {
                    assert forall|k: int| 0 <= k < n.len() implies n[k] != '\\' by {
                        if k > 0 {
                            assert(n[k] == body[k - 1]);
                        }
                    }
                }
                lemma_slashes_clean(n);
                lemma_split_concat(e, body, '/');
                assert(e + seq!['/'] + body =~= n);
                assert(split(n, '/') =~= seq![e] + comps);
                lemma_resolve_skip_empty(comps);
            } else {
                assert(n == body);
                lemma_slashes_clean(n);
            }
        }
    }
}

proof fn lemma_join_tail(cs: Seq<Seq<char>>)
    requires
        cs.len() >= 1,
        forall|i: int| 0 <= i < cs.len() ==> clean_comp(#[trigger] cs[i]),
    ensures
        join(cs, seq!['/']).len() > 0,
        join(cs, seq!['/']).last() == cs.last().last(),
        forall|i: int|
            0 <= i < join(cs, seq!['/']).len() - 1 && #[trigger] join(cs, seq!['/'])[i] == '/'
                ==> join(cs, seq!['/'])[i + 1] != '/',
    decreases cs.len(),
{
    assert(clean_comp(cs[0]));
    if cs.len() == 1 {
        assert forall|i: int| 0 <= i < cs[0].len() implies cs[0][i] != '/' by {
            if cs[0][i] == '/' {
                assert(cs[0].contains('/'));
            }
        }
    } else {
        let init = cs.drop_last();
        assert forall|i: int| 0 <= i < init.len() implies clean_comp(#[trigger] init[i]) by {
            assert(init[i] == cs[i]);
        }
        lemma_join_tail(init);
        let j = join(init, seq!['/']);
        let l = cs.last();
        assert(clean_comp(cs[cs.len() - 1]));
        assert(clean_comp(init[init.len() - 1]));
        let whole = j + seq!['/'] + l;
        assert(whole == join(cs, seq!['/']));
        assert(j.last() != '/') by {
            if j.last() == '/' {
                assert(init.last().contains('/'));
            }
        }
        assert forall|i: int| 0 <= i < whole.len() - 1 && #[trigger] whole[i] == '/' implies whole[i + 1] != '/' by {
            if i < j.len() - 1 {
                assert(whole[i] == j[i] && whole[i + 1] == j[i + 1]);
            } else if i == j.len() - 1 {
                assert(whole[i] == j.last());
            } else if i == j.len() {
                assert(whole[i + 1] == l[0]);
                if l[0] == '/' {
                    assert(l.contains('/'));
                }
            } else {
                assert(whole[i] == l[i - j.len() - 1]);
                assert(l.contains('/'));
            }
        }
        assert(whole.last() == l.last());
    }
}

proof fn lemma_resolve_from(comps: Seq<Seq<char>>)
    ensures
        forall|i: int| 0 <= i < resolve(comps).len() ==> comps.contains(#[trigger] resolve(comps)[i]),
    decreases comps.len(),
{
    if comps.len() > 0 {
        let init = comps.drop_last();
        lemma_resolve_from(init);
        let st = resolve(init);
        let c = comps.last();
        let out = resolve(comps);
        assert forall|i: int| 0 <= i < out.len() implies comps.contains(#[trigger] out[i]) by {
            if i < st.len() {
                assert(out[i] == st[i]);
                assert(init.contains(st[i]));
                let k = choose|k: int| 0 <= k < init.len() && init[k] == st[i];
                assert(comps[k] == init[k]);
            } else {
                assert(out[i] == c);
                assert(comps[comps.len() - 1] == c);
            }
        }
    }
}

/// Law: a normalised path is never empty, holds no `\`, no `//`, no `.` or
/// `..` component, and ends with `/` only when it is the root `/`.
pub proof fn law_normalize_shape(p: Seq<char>)
    ensures
        normalized(p).len() > 0,
        !normalized(p).contains('\\'),
        forall|i: int|
            0 <= i < normalized(p).len() - 1 && #[trigger] normalized(p)[i] == '/' ==> normalized(p)[i + 1]
                != '/',
        normalized(p) == seq!['/'] || normalized(p).last() != '/',
        forall|i: int|
            0 <= i < split(normalized(p), '/').len() ==> #[trigger] split(normalized(p), '/')[i] != dot()
                && split(normalized(p), '/')[i] != dot_dot(),
{
    let n = normalized(p);
    let root = seq!['/'];
    let e = Seq::<char>::empty();
    assert(root =~= e + seq!['/'] + e);
    lemma_split_concat(e, e, '/');
    assert(split(e, '/') =~= seq![e]);
    assert(split(root, '/') =~= seq![e, e]);
    assert(!root.contains('\\')) by {
        assert(root[0] == '/');
    }
    assert(e != dot() && e != dot_dot()) by {
        assert(dot().len() == 1 && dot_dot().len() == 2);
    }
    let t = trim(p);
    if t.len() > 0 {
        let r = slashes(t);
        lemma_slashes_clean(t);
        let ps = split(r, '/');
        lemma_split_pieces(r, '/', '\\');
        lemma_resolve_keeps(ps);
        let comps = resolve(ps);
        if comps.len() > 0 {
            let body = join(comps, seq!['/']);
            lemma_join_shape(comps);
            lemma_join_tail(comps);
            assert forall|i: int| 0 <= i < comps.len() implies !(#[trigger] comps[i]).contains('/') by {
                assert(clean_comp(comps[i]));
            }
            lemma_join_split(comps);
            assert(clean_comp(comps[0]));
            assert(comps[0][0] != '/') by {
                if comps[0][0] == '/' {
                    assert(comps[0].contains('/'));
                }
            }
            assert(clean_comp(comps[comps.len() - 1]));
            assert(comps.last().last() != '/') by {
                if comps.last().last() == '/' {
                    assert(comps.last().contains('/'));
                }
            }
            assert forall|i: int| 0 <= i < comps.len() implies #[trigger] comps[i] != dot() && comps[i] != dot_dot() by {
                assert(clean_comp(comps[i]));
            }
            if r[0] == '/' {
                assert(n == root + body);
                assert(!n.contains('\\')) by {
                    assert forall|k: int| 0 <= k < n.len() implies n[k] != '\\' by {
                        if k > 0 {
                            assert(n[k] == body[k - 1]);
                        }
                    }
                }
                assert forall|i: int| 0 <= i < n.len() - 1 && #[trigger] n[i] == '/' implies n[i + 1] != '/' by {
                    if i == 0 {
                        assert(n[1] == body[0]);
                    } else {
                        assert(n[i] == body[i - 1] && n[i + 1] == body[i]);
                    }
                }
                assert(n.last() == body.last());
                lemma_split_concat(e, body, '/');
                assert(e + seq!['/'] + body =~= n);
                assert(split(n, '/') =~= seq![e] + comps);
                assert forall|i: int| 0 <= i < split(n, '/').len() implies #[trigger] split(n, '/')[i] != dot()
                    && split(n, '/')[i] != dot_dot() by {
                    if i > 0 {
                        assert(split(n, '/')[i] == comps[i - 1]);
                    }
                }
            } else {
                assert(n == body);
            }
        } else {
            assert(join(comps, seq!['/']) =~= e);
            assert(n =~= root);
        }
    } else {
        assert(n =~= root);
    }
}

/// Law: normalising the normal form of a path without whitespace changes
/// nothing.
pub proof fn law_normalize_idempotent_without_whitespace(p: Seq<char>)
    requires
        forall|i: int| 0 <= i < p.len() ==> !crate::text::is_ws(#[trigger] p[i]),
    ensures
        normalized(normalized(p)) == normalized(p),
{
    let n = normalized(p);
    law_normalize_shape(p);
    crate::text::lemma_lead_ws_char(p, 0);
    crate::text::lemma_trail_ws_char(p, 0);
    assert(trim(p) =~= p);
    let t = p;
    assert(!crate::text::is_ws('/'));
    if t.len() > 0 {
        let r = slashes(t);
        assert forall|k: int| 0 <= k < r.len() implies !crate::text::is_ws(#[trigger] r[k]) by {
            if t[k] == '\\' {
                assert(r[k] == '/');
            } else {
                assert(r[k] == t[k]);
            }
        }
        let ps = split(r, '/');
        assert forall|c: char, i: int| crate::text::is_ws(c) && 0 <= i < ps.len() implies !#[trigger] ps[i].contains(c) by {
            assert(!r.contains(c)) by {
                if r.contains(c) {
                    let k = choose|k: int| 0 <= k < r.len() && r[k] == c;
                    assert(!crate::text::is_ws(r[k]));
                }
            }
            lemma_split_pieces(r, '/', c);
        }
        lemma_resolve_from(ps);
        lemma_slashes_clean(t);
        lemma_split_pieces(r, '/', '\\');
        lemma_resolve_keeps(ps);
        let comps = resolve(ps);
        if comps.len() > 0 {
            lemma_join_shape(comps);
            lemma_join_tail(comps);
            assert(ps.contains(comps[0]));
            assert(ps.contains(comps[comps.len() - 1]));
            assert(clean_comp(comps[0]) && clean_comp(comps[comps.len() - 1]));
            let k0 = choose|k: int| 0 <= k < ps.len() && ps[k] == comps[0];
            let k1 = choose|k: int| 0 <= k < ps.len() && ps[k] == comps[comps.len() - 1];
            assert(!crate::text::is_ws(comps[0][0])) by {
                if crate::text::is_ws(comps[0][0]) {
                    assert(!ps[k0].contains(comps[0][0]));
                    assert(comps[0].contains(comps[0][0]));
                }
            }
            let lc = comps.last();
            assert(!crate::text::is_ws(lc.last())) by {
                if crate::text::is_ws(lc.last()) {
                    assert(!ps[k1].contains(lc.last()));
                    assert(lc[lc.len() - 1] == lc.last());
                    assert(lc.contains(lc.last()));
                }
            }
            let body = join(comps, seq!['/']);
            if r[0] == '/' {
                assert(n == seq!['/'] + body);
                assert(n[0] == '/');
                assert(n.last() == body.last());
            } else {
                assert(n == body);
            }
        }
    }
    assert(!crate::text::is_ws(n[0]));
    assert(!crate::text::is_ws(n.last()));
    crate::text::lemma_lead_ws_char(n, 0);
    crate::text::lemma_trail_ws_char(n, 0);
    assert(trim(n) =~= n);
    law_normalize_idempotent(p);
}

/// Keeps the non-empty components.
pub open spec fn nonempty(parts: Seq<Seq<char>>) -> Seq<Seq<char>>
    decreases parts.len(),
{
    if parts.len() == 0 {
        Seq::<Seq<char>>::empty()
    } else if parts.last().len() == 0 {
        nonempty(parts.drop_last())
    } else {
        nonempty(parts.drop_last()).push(parts.last())
    }
}

/// The form in which paths are compared for overlap: `\` read as `/`, empty
/// components dropped, components joined by `/`, no leading `/`.
pub open spec fn overlap_form(s: Seq<char>) -> Seq<char> {
    join(nonempty(split(slashes(s), '/')), seq!['/'])
}

/// `a` equals `b` or lies below it.
pub open spec fn within(a: Seq<char>, b: Seq<char>) -> bool {
    a == b || has_prefix(a, b.push('/'))
}

/// Two job paths overlap when one of them (in overlap form) equals or
/// contains the other.
pub open spec fn overlapping(first: Seq<char>, second: Seq<char>) -> bool {
    let a = overlap_form(first);
    let b = overlap_form(second);
    within(a, b) || within(b, a)
}

fn overlap_form_exec(s: &str) -> (r: Vec<char>)
    ensures
        r@ == overlap_form(s@),
{
    let chars = chars_of(s);
    let v = slashes_exec(&chars);
    let parts = split_chars(&v, '/');
    let mut kept: Vec<Vec<char>> = Vec::new();
    let mut i: usize = 0;
    while i < parts.len()
        invariant
            i <= parts@.len(),
            views(kept@) == nonempty(views(parts@).subrange(0, i as int)),
        decreases parts@.len() - i,
    {
        let p = &parts[i];
        assert(views(parts@).subrange(0, i + 1).drop_last() =~= views(parts@).subrange(0, i as int));
        assert(views(parts@).subrange(0, i + 1).last() == p@);
        let ghost before = views(kept@);
        if p.len() > 0 {
            kept.push(copy_chars(p));
            assert(views(kept@) =~= before.push(p@));
        }
        i = i + 1;
    }
    assert(views(parts@).subrange(0, parts@.len() as int) =~= views(parts@));
    let sep = vec!['/'];
    assert(sep@ =~= seq!['/']);
    join_chars(&kept, &sep)
}

fn within_exec(a: &Vec<char>, b: &Vec<char>) -> (r: bool)
    ensures
        r == within(a@, b@),
{
    let mut bs = copy_chars(b);
    bs.push('/');
    crate::text::eq_chars(a, b) || starts_with_chars(a, &bs)
}

/// Whether a source path and a target path overlap (see [`overlapping`]).
pub fn paths_overlap(first: &str, second: &str) -> (r: bool)
    ensures
        r == overlapping(first@, second@),
{
    let a = overlap_form_exec(first);
    let b = overlap_form_exec(second);
    within_exec(&a, &b) || within_exec(&b, &a)
}

/// Whether `path` is `prefix` or lies below it.
pub fn path_within(path: &str, prefix: &str) -> (r: bool)
    ensures
        r == within(path@, prefix@),
{
    let a = chars_of(path);
    let b = chars_of(prefix);
    within_exec(&a, &b)
}

/// Law: overlap is symmetric.
pub proof fn law_overlap_symmetric(a: Seq<char>, b: Seq<char>)
    ensures
        overlapping(a, b) == overlapping(b, a),
{
}

/// Law: every path overlaps itself.
pub proof fn law_overlap_reflexive(a: Seq<char>)
    ensures
        overlapping(a, a),
{
}

/// Law: a path lies within a prefix exactly when it overlaps in the
/// prefix-first direction; containment is transitive.
pub proof fn law_within_transitive(a: Seq<char>, b: Seq<char>, c: Seq<char>)
    requires
        within(a, b),
        within(b, c),
    ensures
        within(a, c),
{
    if a != b && b != c {
        let cs = c.push('/');
        assert(b.subrange(0, cs.len() as int) == cs);
        assert(a.subrange(0, cs.len() as int) =~= b.subrange(0, cs.len() as int)) by {
            assert forall|i: int| 0 <= i < cs.len() implies a.subrange(0, cs.len() as int)[i]
                == b.subrange(0, cs.len() as int)[i] by {
                assert(a.subrange(0, b.push('/').len() as int)[i] == b.push('/')[i]);
            }
        }
    } else if a == b {
    } else {
    }
}

/// Characters a file name may not keep: control characters and
/// `/ \ : * ? " < > |`.
pub open spec fn forbidden_in_name(c: char) -> bool {
    let u = c as u32;
    ||| u <= 0x1F
    ||| 0x7F <= u <= 0x9F
    ||| c == '/'
    ||| c == '\\'
    ||| c == ':'
    ||| c == '*'
    ||| c == '?'
    ||| c == '"'
    ||| c == '<'
    ||| c == '>'
    ||| c == '|'
}

/// The characters that are allowed in a file name.
pub open spec fn keep_allowed(s: Seq<char>) -> Seq<char>
    decreases s.len(),
{
    if s.len() == 0 {
        Seq::<char>::empty()
    } else if forbidden_in_name(s.last()) {
        keep_allowed(s.drop_last())
    } else {
        keep_allowed(s.drop_last()).push(s.last())
    }
}

pub proof fn lemma_keep_allowed(s: Seq<char>)
    ensures
        forall|i: int| 0 <= i < keep_allowed(s).len() ==> !forbidden_in_name(
            #[trigger] keep_allowed(s)[i],
        ),
    decreases s.len(),
{
    if s.len() > 0 {
        lemma_keep_allowed(s.drop_last());
        let r = keep_allowed(s);
        let rest = keep_allowed(s.drop_last());
        assert forall|i: int| 0 <= i < r.len() implies !forbidden_in_name(#[trigger] r[i]) by {
            if i < rest.len() {
                assert(r[i] == rest[i]);
            }
        }
    }
}

/// Removes control characters and the characters `/ \ : * ? " < > |` from an
/// uploaded file name, then trims surrounding whitespace. The result never
/// contains a path separator.
pub fn sanitize_filename(name: &str) -> (r: String)
    ensures
        r@ == trim(keep_allowed(name@)),
        forall|i: int| 0 <= i < r@.len() ==> !forbidden_in_name(#[trigger] r@[i]),
{
    let chars = chars_of(name);
    let mut kept: Vec<char> = Vec::new();
    let mut i: usize = 0;
    while i < chars.len()
        invariant
            i <= chars@.len(),
            kept@ == keep_allowed(chars@.subrange(0, i as int)),
        decreases chars@.len() - i,
    {
        let c = chars[i];
        assert(chars@.subrange(0, i + 1).drop_last() =~= chars@.subrange(0, i as int));
        let u = c as u32;
        let bad = u <= 0x1F || (0x7F <= u && u <= 0x9F) || c == '/' || c == '\\' || c == ':' || c
            == '*' || c == '?' || c == '"' || c == '<' || c == '>' || c == '|';
        if !bad {
            kept.push(c);
        }
        i = i + 1;
    }
    assert(chars@.subrange(0, chars@.len() as int) =~= chars@);
    let t = trim_chars(&kept);
    proof {
        lemma_keep_allowed(chars@);
        crate::text::lemma_lead_ws(kept@);
        let s = kept@.subrange(crate::text::lead_ws(kept@) as int, kept@.len() as int);
        crate::text::lemma_trail_ws(s);
        assert forall|i: int| 0 <= i < t@.len() implies !forbidden_in_name(#[trigger] t@[i]) by {
            assert(t@[i] == s[i]);
            assert(s[i] == kept@[i + crate::text::lead_ws(kept@)]);
        }
    }
    string_of(&t)
}

/// Drops leading `/` characters (`trim_start_matches('/')`).
pub open spec fn strip_leading_slashes(s: Seq<char>) -> Seq<char>
    decreases s.len(),
{
    if s.len() > 0 && s[0] == '/' {
        strip_leading_slashes(s.drop_first())
    } else {
        s
    }
}

/// One exclusion entry rewritten as a glob over relative paths, following
/// gitignore: a leading `/` anchors the entry at the root (the `/` itself is
/// dropped), and so does a `/` in the middle; a trailing `/` marks a
/// directory rule and is dropped, so the rule matches the directory's own
/// path (a scan does not descend into an excluded directory); any other
/// entry matches at any depth (`**/` is put in front). Glob matching does not
/// tell files from directories, so a directory rule also matches a file of
/// that name.
pub open spec fn glob_of_rule(p: Seq<char>) -> Seq<char> {
    let d = strip_trailing_slashes(strip_leading_slashes(p));
    if (p.len() > 0 && p[0] == '/') || d.contains('/') {
        d
    } else {
        seq!['*', '*', '/'] + d
    }
}

/// The exclusion rules of a `:`-separated list, rewritten as globs; empty
/// entries and negations (`!...`) are skipped.
pub open spec fn glob_rules(parts: Seq<Seq<char>>) -> Seq<Seq<char>>
    decreases parts.len(),
{
    if parts.len() == 0 {
        Seq::<Seq<char>>::empty()
    } else {
        let rest = glob_rules(parts.drop_last());
        let p = trim(parts.last());
        if p.len() == 0 || p[0] == '!' {
            rest
        } else {
            rest.push(glob_of_rule(p))
        }
    }
}

pub(crate) fn strip_leading_slashes_exec(s: &Vec<char>) -> (r: Vec<char>)
    ensures
        r@ == strip_leading_slashes(s@),
{
    let mut k: usize = 0;
    assert(s@.subrange(0, s@.len() as int) =~= s@);
    while k < s.len() && s[k] == '/'
        invariant
            k <= s@.len(),
            strip_leading_slashes(s@.subrange(k as int, s@.len() as int)) == strip_leading_slashes(s@),
        decreases s@.len() - k,
    {
        assert(s@.subrange(k as int, s@.len() as int).drop_first() =~= s@.subrange(k + 1, s@.len() as int));
        k = k + 1;
    }
    assert(s@.subrange(0, s@.len() as int) =~= s@);
    crate::text::sub_chars(s, k, s.len())
}

fn strip_trailing_slashes_exec(s: &Vec<char>) -> (r: Vec<char>)
    ensures
        r@ == strip_trailing_slashes(s@),
{
    let mut k: usize = s.len();
    assert(s@.subrange(0, k as int) =~= s@);
    while k > 0 && s[k - 1] == '/'
        invariant
            k <= s@.len(),
            strip_trailing_slashes(s@.subrange(0, k as int)) == strip_trailing_slashes(s@),
        decreases k,
    {
        assert(s@.subrange(0, k as int).drop_last() =~= s@.subrange(0, k - 1));
        k = k - 1;
    }
    crate::text::sub_chars(s, 0, k)
}

/// Converts gitignore-style exclusion rules (separated by `:`) into glob
/// patterns (see [`glob_rules`]).
pub fn gitignore_to_glob_patterns(raw: &str) -> (r: Vec<String>)
    ensures
        r@.map_values(|s: String| s@) == glob_rules(split(raw@, ':')),
{
    let chars = chars_of(raw);
    let parts = split_chars(&chars, ':');
    let mut out: Vec<String> = Vec::new();
    let mut i: usize = 0;
    while i < parts.len()
        invariant
            i <= parts@.len(),
            views(parts@) == split(raw@, ':'),
            out@.map_values(|s: String| s@) == glob_rules(views(parts@).subrange(0, i as int)),
        decreases parts@.len() - i,
    {
        assert(views(parts@).subrange(0, i + 1).drop_last() =~= views(parts@).subrange(0, i as int));
        assert(views(parts@).subrange(0, i + 1).last() == parts@[i as int]@);
        let p = trim_chars(&parts[i]);
        let ghost before = out@.map_values(|s: String| s@);
        if p.len() > 0 && p[0] != '!' {
            let anchored = p[0] == '/';
            let q = strip_leading_slashes_exec(&p);
            let d = strip_trailing_slashes_exec(&q);
            let has_sep = crate::text::contains_char(&d, '/');
            let g = if anchored || has_sep {
                d
            } else {
                let mut g = vec!['*', '*', '/'];
                append_chars(&mut g, &d);
                assert(g@ =~= seq!['*', '*', '/'] + d@);
                g
            };
            out.push(string_of(&g));
            assert(out@.map_values(|s: String| s@) =~= before.push(g@));
        }
        i = i + 1;
    }
    assert(views(parts@).subrange(0, parts@.len() as int) =~= views(parts@));
    out
}

} // verus!
