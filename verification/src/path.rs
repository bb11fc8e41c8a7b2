//! Slash-delimited virtual paths, distinct from host path syntax.

use vstd::prelude::*;

verus! {

/// The sequence obtained by joining `parts` with `'/'` between them.
/// Joining no parts gives the empty sequence; this mirrors how splitting
/// a string on `'/'` always yields at least one (possibly empty) segment.
pub open spec fn join_parts(parts: Seq<Seq<char>>) -> Seq<char>
    decreases parts.len(),
{
    if parts.len() == 0 {
        Seq::empty()
    } else if parts.len() == 1 {
        parts[0]
    } else {
        parts[0] + seq!['/'] + join_parts(parts.drop_first())
    }
}

/// Every element of `parts` is free of `'/'`.
pub open spec fn slash_free(parts: Seq<Seq<char>>) -> bool {
    forall|i: int| 0 <= i < parts.len() ==> !(#[trigger] parts[i]).contains('/')
}

proof fn lemma_join_grow_last(parts: Seq<Seq<char>>, last: Seq<char>, c: char)
    ensures
        join_parts(parts.push(last.push(c))) == join_parts(parts.push(last)).push(c),
    decreases parts.len(),
{
    if parts.len() == 0 {
        assert(parts.push(last.push(c)) =~= seq![last.push(c)]);
        assert(parts.push(last) =~= seq![last]);
    } else {
        let tail = parts.drop_first();
        lemma_join_grow_last(tail, last, c);
        assert(parts.push(last.push(c)).drop_first() =~= tail.push(last.push(c)));
        assert(parts.push(last).drop_first() =~= tail.push(last));
        assert(parts.push(last.push(c))[0] == parts[0]);
        assert(parts.push(last)[0] == parts[0]);
        assert(parts.push(last.push(c)).len() >= 2);
        assert(parts.push(last).len() >= 2);
        assert(join_parts(parts.push(last.push(c)))
            == parts[0] + seq!['/'] + join_parts(tail.push(last.push(c))));
        assert(join_parts(parts.push(last))
            == parts[0] + seq!['/'] + join_parts(tail.push(last)));
        assert(parts[0] + seq!['/'] + join_parts(tail.push(last)).push(c)
            =~= (parts[0] + seq!['/'] + join_parts(tail.push(last))).push(c));
    }
}

proof fn lemma_join_new_part(parts: Seq<Seq<char>>, last: Seq<char>)
    ensures
        join_parts(parts.push(last).push(Seq::empty()))
            == join_parts(parts.push(last)).push('/'),
    decreases parts.len(),
{
    if parts.len() == 0 {
        assert(parts.push(last) =~= seq![last]);
        assert(parts.push(last).push(Seq::empty()) =~= seq![last, Seq::empty()]);
        let two = seq![last, Seq::<char>::empty()];
        assert(two.drop_first() =~= seq![Seq::<char>::empty()]);
        assert(join_parts(seq![Seq::<char>::empty()]) == Seq::<char>::empty());
        assert(join_parts(two) == last + seq!['/'] + join_parts(two.drop_first()));
        assert(last + seq!['/'] + Seq::<char>::empty() =~= last.push('/'));
    } else {
        let tail = parts.drop_first();
        lemma_join_new_part(tail, last);
        assert(parts.push(last).push(Seq::empty()).drop_first()
            =~= tail.push(last).push(Seq::empty()));
        assert(parts.push(last).drop_first() =~= tail.push(last));
        assert(parts.push(last).push(Seq::empty()).len() >= 2);
        assert(parts.push(last).len() >= 2);
        assert(parts[0] + seq!['/'] + join_parts(tail.push(last)).push('/')
            =~= (parts[0] + seq!['/'] + join_parts(tail.push(last))).push('/'));
    }
}

/// The position of the first slash in `s`, or `s.len()` where it has
/// none.
pub open spec fn first_slash(s: Seq<char>) -> int
    decreases s.len(),
{
    if s.len() == 0 {
        0
    } else if s[0] == '/' {
        0
    } else {
        1 + first_slash(s.drop_first())
    }
}

/// The decomposition of a text into its slash-separated segments: the
/// one reading of a path, by [`lemma_parts_unique`].
pub open spec fn split_parts(s: Seq<char>) -> Seq<Seq<char>>
    decreases s.len(),
{
    let i = first_slash(s);
    if i < 0 || i >= s.len() {
        seq![s]
    } else {
        seq![s.take(i)] + split_parts(s.skip(i + 1))
    }
}

proof fn lemma_first_slash_facts(s: Seq<char>)
    ensures
        0 <= first_slash(s) <= s.len(),
        first_slash(s) < s.len() ==> s[first_slash(s)] == '/',
        forall|k: int| 0 <= k < first_slash(s) ==> s[k] != '/',
    decreases s.len(),
{
    if s.len() == 0 {
    } else if s[0] == '/' {
    } else {
        lemma_first_slash_facts(s.drop_first());
        assert forall|k: int| 0 <= k < first_slash(s) implies s[k] != '/' by {
            if k > 0 {
                assert(s.drop_first()[k - 1] == s[k]);
            }
        }
    }
}

/// The decomposition is a valid reading: at least one segment, none
/// holding a slash, joining back to the text.
pub proof fn lemma_split_parts_valid(s: Seq<char>)
    ensures
        split_parts(s).len() >= 1,
        slash_free(split_parts(s)),
        join_parts(split_parts(s)) == s,
    decreases s.len(),
{
    lemma_first_slash_facts(s);
    let i = first_slash(s);
    if i >= s.len() {
        assert(!s.contains('/')) by {
            if s.contains('/') {
                let w = choose|w: int| 0 <= w < s.len() && s[w] == '/';
                assert(s[w] != '/');
            }
        }
        assert(slash_free(seq![s])) by {
            assert(seq![s][0] == s);
        }
    } else {
        let head = s.take(i);
        let tail = s.skip(i + 1);
        lemma_split_parts_valid(tail);
        let rest = split_parts(tail);
        assert(split_parts(s) == seq![head] + rest);
        assert(!head.contains('/')) by {
            if head.contains('/') {
                let w = choose|w: int| 0 <= w < head.len() && head[w] == '/';
                assert(s[w] == head[w]);
                assert(s[w] != '/');
            }
        }
        assert(slash_free(seq![head] + rest)) by {
            assert forall|j: int|
                0 <= j < (seq![head] + rest).len() implies !(#[trigger] (seq![head]
                + rest)[j]).contains('/') by {
                if j == 0 {
                    assert((seq![head] + rest)[0] == head);
                } else {
                    assert((seq![head] + rest)[j] == rest[j - 1]);
                }
            }
        }
        if rest.len() == 1 {
            assert((seq![head] + rest).len() == 2);
            assert((seq![head] + rest)[0] == head);
            assert((seq![head] + rest).drop_first() =~= rest);
            assert(join_parts(seq![head] + rest) == head + seq!['/'] + join_parts(rest));
        } else {
            assert((seq![head] + rest).len() >= 2);
            assert((seq![head] + rest)[0] == head);
            assert((seq![head] + rest).drop_first() =~= rest);
        }
        assert(join_parts(seq![head] + rest) == head + seq!['/'] + tail);
        assert(head + seq!['/'] + tail =~= s);
    }
}

/// A text has exactly one decomposition into slash-free segments whose
/// join it is: what `parts` yields is the only reading of a path.
pub proof fn lemma_parts_unique(a: Seq<Seq<char>>, b: Seq<Seq<char>>)
    requires
        a.len() >= 1,
        b.len() >= 1,
        slash_free(a),
        slash_free(b),
        join_parts(a) == join_parts(b),
    ensures
        a == b,
    decreases a.len(),
{
    let j = join_parts(a);
    if a.len() == 1 && b.len() == 1 {
        assert(a =~= b);
    } else if a.len() == 1 {
        assert(j == b[0] + seq!['/'] + join_parts(b.drop_first()));
        assert(j[b[0].len() as int] == '/');
        assert(j == a[0]);
        assert(a[0].contains('/')) by {
            assert(a[0][b[0].len() as int] == '/');
        }
        assert(false);
    } else if b.len() == 1 {
        assert(j == a[0] + seq!['/'] + join_parts(a.drop_first()));
        assert(j[a[0].len() as int] == '/');
        assert(j == b[0]);
        assert(b[0].contains('/')) by {
            assert(b[0][a[0].len() as int] == '/');
        }
        assert(false);
    } else {
        assert(j == a[0] + seq!['/'] + join_parts(a.drop_first()));
        assert(j == b[0] + seq!['/'] + join_parts(b.drop_first()));
        let la = a[0].len() as int;
        let lb = b[0].len() as int;
        if la < lb {
            assert(j[la] == '/');
            assert(j[la] == b[0][la]);
            assert(b[0].contains('/')) by {
                assert(b[0][la] == '/');
            }
            assert(false);
        }
        if lb < la {
            assert(j[lb] == '/');
            assert(j[lb] == a[0][lb]);
            assert(a[0].contains('/')) by {
                assert(a[0][lb] == '/');
            }
            assert(false);
        }
        assert(la == lb);
        assert forall|i: int| 0 <= i < la implies a[0][i] == b[0][i] by {
            assert(j == (a[0] + seq!['/']) + join_parts(a.drop_first()));
            assert(i < (a[0] + seq!['/']).len());
            assert(j[i] == (a[0] + seq!['/'])[i]);
            assert((a[0] + seq!['/'])[i] == a[0][i]);
            assert(j == (b[0] + seq!['/']) + join_parts(b.drop_first()));
            assert(i < (b[0] + seq!['/']).len());
            assert(j[i] == (b[0] + seq!['/'])[i]);
            assert((b[0] + seq!['/'])[i] == b[0][i]);
        }
        assert(a[0] =~= b[0]);
        assert(join_parts(a.drop_first()) =~= j.skip(la + 1));
        assert(join_parts(b.drop_first()) =~= j.skip(la + 1));
        assert(slash_free(a.drop_first())) by {
            assert(forall|i: int|
                0 <= i < a.drop_first().len() ==> a.drop_first()[i] == a[i + 1]);
        }
        assert(slash_free(b.drop_first())) by {
            assert(forall|i: int|
                0 <= i < b.drop_first().len() ==> b.drop_first()[i] == b[i + 1]);
        }
        lemma_parts_unique(a.drop_first(), b.drop_first());
        assert(a.len() == b.len());
        assert forall|i: int| 0 <= i < a.len() implies a[i] == b[i] by {
            if i > 0 {
                assert(a.drop_first()[i - 1] == a[i]);
                assert(b.drop_first()[i - 1] == b[i]);
            }
        }
        assert(a =~= b);
    }
}

/// A path in the vault's virtual namespace. Its text is the segments
/// joined with `'/'`; a leading slash simply makes the first segment
/// empty.
#[derive(Debug)]
pub struct Path {
    inner: String,
}

impl View for Path {
    type V = Seq<char>;

    closed spec fn view(&self) -> Seq<char> {
        self.inner@
    }
}

impl Clone for Path {
    fn clone(&self) -> (r: Self)
        ensures
            r@ == self@,
    {
        Path { inner: self.inner.clone() }
    }
}

impl Default for Path {
    /// The empty path: one empty segment, naming the vault root.
    fn default() -> (r: Self)
        ensures
            r@ == Seq::<char>::empty(),
    {
        Path { inner: String::new() }
    }
}

impl Path {
    /// Wrap a string as a virtual path. Every string is accepted.
    pub fn new(value: &str) -> (r: Option<Self>)
        ensures
            r is Some,
            r.unwrap()@ == value@,
    {
        Some(Path { inner: value.to_owned() })
    }

    /// The path's text.
    pub fn as_text(&self) -> (r: &str)
        ensures
            r@ == self@,
    {
        self.inner.as_str()
    }

    /// Append one more segment, inserting a separating slash unless the
    /// segment brings its own.
    pub fn append(&mut self, part: &str)
        ensures
            final(self)@ == old(self)@ + (
                if part@.len() > 0 && part@[0] == '/' {
                    Seq::<char>::empty()
                } else {
                    seq!['/']
                }
            ) + part@,
    {
        let starts_with_slash = part.unicode_len() > 0 && part.get_char(0) == '/';
        if !starts_with_slash {
            self.inner.append("/");
            proof {
                reveal_strlit("/");
                assert("/"@ =~= seq!['/']);
            }
        } else {
            proof {
                assert(old(self)@ + Seq::<char>::empty() =~= old(self)@);
            }
        }
        self.inner.append(part);
    }

    /// Split the path into its slash-separated segments. There is always
    /// at least one segment; joining the segments back with `'/'` gives
    /// the path's text, and no segment contains a slash.
    pub fn parts(&self) -> (r: Vec<String>)
        ensures
            r.deep_view().len() >= 1,
            join_parts(r.deep_view()) == self@,
            slash_free(r.deep_view()),
    {
        let text = self.inner.as_str();
        let n = text.unicode_len();
        let mut out: Vec<String> = Vec::new();
        let mut cur: String = String::new();
        let mut i: usize = 0;
        proof {
            assert(out.deep_view().push(cur@) =~= seq![Seq::<char>::empty()]);
            assert(join_parts(seq![Seq::<char>::empty()]) =~= self@.take(0));
        }
        while i < n
            invariant
                i <= n,
                n == text@.len(),
                text@ == self@,
                join_parts(out.deep_view().push(cur@)) == self@.take(i as int),
                slash_free(out.deep_view().push(cur@)),
            decreases n - i,
        {
            let c = text.get_char(i);
            if c == '/' {
                let ghost old_out_dv = out.deep_view();
                let ghost old_cur = cur@;
                proof {
                    lemma_join_new_part(old_out_dv, old_cur);
                    assert(self@.take(i as int).push('/') =~= self@.take(i + 1));
                }
                out.push(cur);
                cur = String::new();
                proof {
                    assert(out.deep_view() =~= old_out_dv.push(old_cur));
                    assert(out.deep_view().push(cur@)
                        =~= old_out_dv.push(old_cur).push(Seq::<char>::empty()));
                    assert forall|k: int| 0 <= k < out.deep_view().push(cur@).len()
                        implies !(#[trigger] out.deep_view().push(cur@)[k]).contains('/') by {
                        if k < old_out_dv.len() {
                            assert(old_out_dv.push(old_cur)[k] == old_out_dv[k]);
                        }
                    }
                }
            } else {
                let ghost old_cur = cur@;
                proof {
                    lemma_join_grow_last(out.deep_view(), old_cur, c);
                    assert(self@.take(i as int).push(c) =~= self@.take(i + 1));
                }
                let one = text.substring_char(i, i + 1);
                proof {
                    assert(one@ =~= seq![c]);
                    assert(old_cur + one@ =~= old_cur.push(c));
                }
                cur.append(one);
                proof {
                    assert(cur@ == old_cur.push(c));
                    assert(!cur@.contains('/')) by {
                        assert forall|j: int| 0 <= j < cur@.len()
                            implies cur@[j] != '/' by {
                            if j < old_cur.len() {
                                assert(cur@[j] == old_cur[j]);
                                assert(out.deep_view().push(old_cur)[out.deep_view().len() as int]
                                    == old_cur);
                                assert(!old_cur.contains('/'));
                            } else {
                                assert(cur@[j] == c);
                            }
                        }
                    }
                    assert forall|k: int| 0 <= k < out.deep_view().push(cur@).len()
                        implies !(#[trigger] out.deep_view().push(cur@)[k]).contains('/') by {
                        if k < out.deep_view().len() {
                            assert(out.deep_view().push(old_cur)[k] == out.deep_view()[k]);
                        }
                    }
                }
            }
            i = i + 1;
        }
        proof {
            assert(self@.take(n as int) =~= self@);
        }
        let ghost old_out_dv = out.deep_view();
        out.push(cur);
        proof {
            assert(out.deep_view() =~= old_out_dv.push(cur@));
        }
        out
    }
}

} // verus!
