//! Character-level text handling: Unicode whitespace, splitting into words,
//! joining, trimming and decimal rendering of integers.

use vstd::prelude::*;

verus! {

/// Unicode `White_Space`, the set that `char::is_whitespace` tests.
pub open spec fn is_ws(c: char) -> bool {
    let u = c as u32;
    ||| 0x09 <= u <= 0x0d
    ||| u == 0x20
    ||| u == 0x85
    ||| u == 0xa0
    ||| u == 0x1680
    ||| 0x2000 <= u <= 0x200a
    ||| u == 0x2028
    ||| u == 0x2029
    ||| u == 0x202f
    ||| u == 0x205f
    ||| u == 0x3000
}

/// Whether `c` is whitespace in the sense of `char::is_whitespace`.
pub fn is_whitespace(c: char) -> (b: bool)
    ensures
        b == is_ws(c),
{
    let u = c as u32;
    (0x09 <= u && u <= 0x0d) || u == 0x20 || u == 0x85 || u == 0xa0 || u == 0x1680 || (0x2000
        <= u && u <= 0x200a) || u == 0x2028 || u == 0x2029 || u == 0x202f || u == 0x205f || u
        == 0x3000
}

/// The words of `s` that follow a partly read word `cur`: maximal runs of
/// non-whitespace characters, in order, none of them empty.
pub open spec fn words_after(s: Seq<char>, cur: Seq<char>) -> Seq<Seq<char>>
    decreases s.len(),
{
    if s.len() == 0 {
        if cur.len() == 0 {
            seq![]
        } else {
            seq![cur]
        }
    } else if is_ws(s[0]) {
        (if cur.len() == 0 {
            Seq::<Seq<char>>::empty()
        } else {
            seq![cur]
        }) + words_after(s.drop_first(), seq![])
    } else {
        words_after(s.drop_first(), cur.push(s[0]))
    }
}

/// The whitespace-separated words of `s`, as `str::split_whitespace` yields them.
pub open spec fn words(s: Seq<char>) -> Seq<Seq<char>> {
    words_after(s, seq![])
}

/// The words joined by single spaces, as `[&str]::join(" ")` builds it.
pub open spec fn join_spaced(ws: Seq<Seq<char>>) -> Seq<char>
    decreases ws.len(),
{
    if ws.len() == 0 {
        seq![]
    } else if ws.len() == 1 {
        ws[0]
    } else {
        join_spaced(ws.drop_last()) + seq![' '] + ws.last()
    }
}

/// `s` without its leading whitespace.
pub open spec fn trim_start(s: Seq<char>) -> Seq<char>
    decreases s.len(),
{
    if s.len() > 0 && is_ws(s[0]) {
        trim_start(s.drop_first())
    } else {
        s
    }
}

/// `s` without its trailing whitespace.
pub open spec fn trim_end(s: Seq<char>) -> Seq<char>
    decreases s.len(),
{
    if s.len() > 0 && is_ws(s.last()) {
        trim_end(s.drop_last())
    } else {
        s
    }
}

/// `s` without leading and trailing whitespace, as `str::trim` gives it.
pub open spec fn trim(s: Seq<char>) -> Seq<char> {
    trim_end(trim_start(s))
}

/// Appends one character to a string (`String::push`).
#[verifier::external_body]
pub(crate) fn push_char(s: &mut String, c: char)
    ensures
        final(s)@ == old(s)@.push(c),
{
    s.push(c);
}

/// The characters of `s`, in order.
pub fn chars_of(s: &str) -> (v: Vec<char>)
    ensures
        v@ == s@,
{
    let mut v: Vec<char> = Vec::new();
    for c in it: s.chars()
        invariant
            v@ == it.seq().take(it.index() as int),
            it.seq() == s@,
    {
        v.push(c);
    }
    v
}


/// The views of a sequence of strings.
pub open spec fn views(v: Seq<String>) -> Seq<Seq<char>> {
    v.map_values(|w: String| w@)
}

/// The string made of `v[lo..hi]`.
pub fn string_of(v: &Vec<char>, lo: usize, hi: usize) -> (s: String)
    requires
        lo <= hi <= v.len(),
    ensures
        s@ == v@.subrange(lo as int, hi as int),
{
    let mut s = String::new();
    let mut i = lo;
    while i < hi
        invariant
            lo <= i <= hi <= v.len(),
            s@ == v@.subrange(lo as int, i as int),
        decreases hi - i,
    {
        push_char(&mut s, v[i]);
        i = i + 1;
        assert(s@ =~= v@.subrange(lo as int, i as int));
    }
    s
}

proof fn lemma_skip_step(s: Seq<char>, i: int)
    requires
        0 <= i < s.len(),
    ensures
        s.skip(i).len() > 0,
        s.skip(i)[0] == s[i],
        s.skip(i).drop_first() == s.skip(i + 1),
{
    assert(s.skip(i).drop_first() =~= s.skip(i + 1));
}

/// The whitespace-separated words of `s` (`str::split_whitespace`).
pub fn split_words(s: &str) -> (ws: Vec<String>)
    ensures
        views(ws@) == words(s@),
{
    let chars = chars_of(s);
    let mut ws: Vec<String> = Vec::new();
    let mut cur = String::new();
    let mut i: usize = 0;
    assert(chars@.skip(0) =~= chars@);
    while i < chars.len()
        invariant
            0 <= i <= chars.len(),
            chars@ == s@,
            words(s@) == views(ws@) + words_after(chars@.skip(i as int), cur@),
        decreases chars.len() - i,
    {
        let c = chars[i];
        let ghost old_cur = cur@;
        let ghost old_ws = views(ws@);
        proof {
            lemma_skip_step(chars@, i as int);
        }
        if is_whitespace(c) {
            if !cur.as_str().is_empty() {
                let ghost old_ws = ws@;
                ws.push(cur);
                assert(views(ws@) =~= views(old_ws) + seq![cur@]);
                cur = String::new();
            }
        } else {
            push_char(&mut cur, c);
        }
        proof {
            let t = chars@.skip(i as int);
            if is_ws(c) {
                let pre = if old_cur.len() == 0 {
                    Seq::<Seq<char>>::empty()
                } else {
                    seq![old_cur]
                };
                assert(words_after(t, old_cur) == pre + words_after(t.drop_first(), seq![]));
                assert(views(ws@) =~= old_ws + pre);
                assert(cur@ =~= Seq::<char>::empty());
                assert(old_ws + words_after(t, old_cur) =~= views(ws@) + words_after(
                    t.drop_first(),
                    cur@,
                ));
            } else {
                assert(words_after(t, old_cur) == words_after(t.drop_first(), old_cur.push(c)));
            }
        }
        i = i + 1;
    }
    proof {
        assert(chars@.skip(i as int).len() == 0);
    }
    if !cur.as_str().is_empty() {
        let ghost old_ws = ws@;
        ws.push(cur);
        assert(views(ws@) =~= views(old_ws) + seq![cur@]);
    } else {
        assert(views(ws@) =~= views(ws@) + Seq::<Seq<char>>::empty());
    }
    ws
}


/// `s` without leading and trailing whitespace (`str::trim`).
pub fn trimmed(s: &str) -> (t: String)
    ensures
        t@ == trim(s@),
{
    let v = chars_of(s);
    let n = v.len();
    let mut a: usize = 0;
    assert(v@.skip(0) =~= v@);
    while a < n && is_whitespace(v[a])
        invariant
            0 <= a <= n == v.len(),
            v@ == s@,
            trim_start(s@) == trim_start(v@.skip(a as int)),
        decreases n - a,
    {
        proof {
            lemma_skip_step(v@, a as int);
        }
        a = a + 1;
    }
    proof {
        if a == n {
            assert(v@.skip(a as int) =~= Seq::<char>::empty());
        }
        assert(v@.skip(a as int) =~= v@.subrange(a as int, n as int));
    }
    let mut b: usize = n;
    while b > a && is_whitespace(v[b - 1])
        invariant
            0 <= a <= b <= n == v.len(),
            v@ == s@,
            trim(s@) == trim_end(v@.subrange(a as int, b as int)),
        decreases b - a,
    {
        proof {
            let t = v@.subrange(a as int, b as int);
            assert(t.last() == v@[b - 1]);
            assert(t.drop_last() =~= v@.subrange(a as int, b - 1));
        }
        b = b - 1;
    }
    string_of(&v, a, b)
}

/// The strings `ws[from..]` joined by single spaces.
pub fn join_from(ws: &Vec<String>, from: usize) -> (s: String)
    requires
        from <= ws.len(),
    ensures
        s@ == join_spaced(views(ws@).skip(from as int)),
{
    let mut s = String::new();
    let mut i = from;
    assert(views(ws@).subrange(from as int, from as int) =~= Seq::<Seq<char>>::empty());
    while i < ws.len()
        invariant
            from <= i <= ws.len(),
            s@ == join_spaced(views(ws@).subrange(from as int, i as int)),
        decreases ws.len() - i,
    {
        let ghost prev = views(ws@).subrange(from as int, i as int);
        let ghost next = views(ws@).subrange(from as int, i + 1);
        assert(next.drop_last() =~= prev);
        assert(next.last() == ws@[i as int]@);
        if i != from {
            push_char(&mut s, ' ');
        }
        s.append(ws[i].as_str());
        i = i + 1;
        assert(s@ =~= join_spaced(next));
    }
    assert(views(ws@).subrange(from as int, ws.len() as int) =~= views(ws@).skip(from as int));
    s
}

/// The decimal digit for `d`.
pub open spec fn digit_char(d: nat) -> char {
    if d == 0 {
        '0'
    } else if d == 1 {
        '1'
    } else if d == 2 {
        '2'
    } else if d == 3 {
        '3'
    } else if d == 4 {
        '4'
    } else if d == 5 {
        '5'
    } else if d == 6 {
        '6'
    } else if d == 7 {
        '7'
    } else if d == 8 {
        '8'
    } else {
        '9'
    }
}

/// The decimal notation of `n`, most significant digit first, without leading zeros.
pub open spec fn decimal(n: nat) -> Seq<char>
    decreases n,
{
    if n < 10 {
        seq![digit_char(n)]
    } else {
        decimal(n / 10).push(digit_char(n % 10))
    }
}

fn digit(d: u64) -> (c: char)
    requires
        d < 10,
    ensures
        c == digit_char(d as nat),
{
    if d == 0 {
        '0'
    } else if d == 1 {
        '1'
    } else if d == 2 {
        '2'
    } else if d == 3 {
        '3'
    } else if d == 4 {
        '4'
    } else if d == 5 {
        '5'
    } else if d == 6 {
        '6'
    } else if d == 7 {
        '7'
    } else if d == 8 {
        '8'
    } else {
        '9'
    }
}

/// `n` written in decimal (what `n.to_string()` gives).
pub fn decimal_string(n: u64) -> (s: String)
    ensures
        s@ == decimal(n as nat),
    decreases n,
{
    if n < 10 {
        let mut s = String::new();
        push_char(&mut s, digit(n));
        assert(s@ =~= seq![digit_char(n as nat)]);
        s
    } else {
        let mut s = decimal_string(n / 10);
        push_char(&mut s, digit(n % 10));
        s
    }
}

/// `w` is a word: not empty, without whitespace.
pub open spec fn is_word(w: Seq<char>) -> bool {
    w.len() > 0 && forall|i: int| 0 <= i < w.len() ==> !is_ws(#[trigger] w[i])
}

proof fn lemma_words_after_word(w: Seq<char>, rest: Seq<char>, cur: Seq<char>)
    requires
        forall|i: int| 0 <= i < w.len() ==> !is_ws(#[trigger] w[i]),
    ensures
        words_after(w + rest, cur) == words_after(rest, cur + w),
    decreases w.len(),
{
    if w.len() == 0 {
        assert(w + rest =~= rest);
        assert(cur + w =~= cur);
    } else {
        let t = w + rest;
        assert(t[0] == w[0]);
        assert(t.drop_first() =~= w.drop_first() + rest);
        assert forall|i: int| 0 <= i < w.drop_first().len() implies !is_ws(
            #[trigger] w.drop_first()[i],
        ) by {
            assert(w.drop_first()[i] == w[i + 1]);
        }
        lemma_words_after_word(w.drop_first(), rest, cur.push(w[0]));
        assert(cur.push(w[0]) + w.drop_first() =~= cur + w);
    }
}

proof fn lemma_join_front(w: Seq<char>, ws: Seq<Seq<char>>)
    requires
        ws.len() > 0,
    ensures
        join_spaced(seq![w] + ws) == w + seq![' '] + join_spaced(ws),
    decreases ws.len(),
{
    let all = seq![w] + ws;
    if ws.len() == 1 {
        assert(all.drop_last() =~= seq![w]);
        assert(all.last() == ws[0]);
        assert(join_spaced(seq![w]) == w);
        assert(join_spaced(ws) == ws[0]);
        assert(join_spaced(all) == join_spaced(all.drop_last()) + seq![' '] + all.last());
    } else {
        assert(all.drop_last() =~= seq![w] + ws.drop_last());
        lemma_join_front(w, ws.drop_last());
        assert(all.last() == ws.last());
        assert(join_spaced(all) == join_spaced(all.drop_last()) + seq![' '] + all.last());
        assert(join_spaced(ws) == join_spaced(ws.drop_last()) + seq![' '] + ws.last());
        assert(w + seq![' '] + join_spaced(ws.drop_last()) + seq![' '] + ws.last() =~= w + seq![
            ' ',
        ] + (join_spaced(ws.drop_last()) + seq![' '] + ws.last()));
    }
}

/// Splitting words joined by single spaces gives back the words.
pub proof fn law_split_undoes_join(ws: Seq<Seq<char>>)
    requires
        ws.len() > 0,
        forall|i: int| 0 <= i < ws.len() ==> is_word(#[trigger] ws[i]),
    ensures
        words(join_spaced(ws)) == ws,
    decreases ws.len(),
{
    let w = ws[0];
    assert(is_word(ws[0]));
    if ws.len() == 1 {
        assert(join_spaced(ws) == w);
        lemma_words_after_word(w, seq![], seq![]);
        assert(w + Seq::<char>::empty() =~= w);
        assert(Seq::<char>::empty() + w =~= w);
        assert(words_after(Seq::<char>::empty(), w) == seq![w]);
        assert(ws =~= seq![w]);
    } else {
        let tail = ws.drop_first();
        assert(ws =~= seq![w] + tail);
        lemma_join_front(w, tail);
        assert forall|i: int| 0 <= i < tail.len() implies is_word(#[trigger] tail[i]) by {
            assert(tail[i] == ws[i + 1]);
        }
        law_split_undoes_join(tail);
        let rest = seq![' '] + join_spaced(tail);
        assert(w + seq![' '] + join_spaced(tail) =~= w + rest);
        lemma_words_after_word(w, rest, seq![]);
        assert(Seq::<char>::empty() + w =~= w);
        assert(rest[0] == ' ');
        assert(is_ws(' '));
        assert(rest.drop_first() =~= join_spaced(tail));
        assert(words_after(rest, w) == seq![w] + words_after(join_spaced(tail), seq![]));
    }
}

/// Words joined by single spaces are not empty.
pub proof fn lemma_join_nonempty(ws: Seq<Seq<char>>)
    requires
        ws.len() > 0,
        forall|i: int| 0 <= i < ws.len() ==> is_word(#[trigger] ws[i]),
    ensures
        join_spaced(ws).len() > 0,
    decreases ws.len(),
{
    if ws.len() > 1 {
        assert(is_word(ws[ws.len() - 1]));
    } else {
        assert(is_word(ws[0]));
    }
}

} // verus!
