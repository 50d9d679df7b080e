use vstd::prelude::*;

verus! {

/// The byte that `join` puts between two words.
pub const SPACE: u8 = 32;

/// Bytes that separate words on a command line: space, tab, line feed and
/// carriage return.
pub open spec fn is_blank(b: u8) -> bool {
    b == 32 || b == 9 || b == 10 || b == 13
}

/// A word as the splitter produces it: not empty, and free of blanks.
pub open spec fn is_word(w: Seq<u8>) -> bool {
    &&& w.len() > 0
    &&& forall|i: int| 0 <= i < w.len() ==> !is_blank(#[trigger] w[i])
}

/// State after reading the bytes of `s` from left to right: the words that
/// are complete, and the word being read (empty between words).
pub open spec fn scan(s: Seq<u8>) -> (Seq<Seq<u8>>, Seq<u8>)
    decreases s.len(),
{
    if s.len() == 0 {
        (Seq::empty(), Seq::empty())
    } else {
        let prev = scan(s.drop_last());
        if !is_blank(s.last()) {
            (prev.0, prev.1.push(s.last()))
        } else if prev.1.len() == 0 {
            prev
        } else {
            (prev.0.push(prev.1), Seq::empty())
        }
    }
}

/// The words of a line: its maximal runs of bytes that are not blanks.
pub open spec fn words(s: Seq<u8>) -> Seq<Seq<u8>> {
    let st = scan(s);
    if st.1.len() == 0 {
        st.0
    } else {
        st.0.push(st.1)
    }
}

/// The words laid end to end with one space between neighbours.
pub open spec fn join(ws: Seq<Seq<u8>>) -> Seq<u8>
    decreases ws.len(),
{
    if ws.len() == 0 {
        Seq::empty()
    } else if ws.len() == 1 {
        ws[0]
    } else {
        join(ws.drop_last()) + seq![SPACE] + ws.last()
    }
}

/// The byte strings held by a vector of byte vectors.
pub open spec fn views(v: Seq<Vec<u8>>) -> Seq<Seq<u8>> {
    v.map_values(|w: Vec<u8>| w@)
}

proof fn lemma_views_push(v: Seq<Vec<u8>>, w: Vec<u8>)
    ensures
        views(v.push(w)) == views(v).push(w@),
{
    assert(views(v.push(w)) =~= views(v).push(w@));
}

/// Reading a word after a line whose pending word is `scan(p).1` extends that
/// pending word and completes nothing.
proof fn lemma_scan_word(p: Seq<u8>, w: Seq<u8>)
    requires
        forall|i: int| 0 <= i < w.len() ==> !is_blank(#[trigger] w[i]),
    ensures
        scan(p + w) == (scan(p).0, scan(p).1 + w),
    decreases w.len(),
{
    if w.len() == 0 {
        assert(p + w =~= p);
        assert(scan(p).1 + w =~= scan(p).1);
    } else {
        let w0 = w.drop_last();
        lemma_scan_word(p, w0);
        assert((p + w).drop_last() =~= p + w0);
        assert((p + w).last() == w.last());
        assert(scan(p).1 + w0.push(w.last()) =~= scan(p).1 + w);
        assert(w0.push(w.last()) =~= w);
    }
}

/// Splitting a line that `join` made from well-formed words gives the words back.
pub proof fn lemma_words_join(ws: Seq<Seq<u8>>)
    requires
        forall|i: int| 0 <= i < ws.len() ==> is_word(#[trigger] ws[i]),
    ensures
        words(join(ws)) == ws,
{
    if ws.len() > 0 {
        lemma_scan_join(ws);
        assert(ws.drop_last().push(ws.last()) =~= ws);
    } else {
        assert(join(ws) =~= Seq::<u8>::empty());
    }
}

proof fn lemma_scan_join(ws: Seq<Seq<u8>>)
    requires
        ws.len() > 0,
        forall|i: int| 0 <= i < ws.len() ==> is_word(#[trigger] ws[i]),
    ensures
        scan(join(ws)) == (ws.drop_last(), ws.last()),
    decreases ws.len(),
{
    let e = Seq::<u8>::empty();
    assert(is_word(ws.last()));
    if ws.len() == 1 {
        lemma_scan_word(e, ws[0]);
        assert(e + ws[0] =~= ws[0]);
        assert(scan(e) == (Seq::<Seq<u8>>::empty(), e));
        assert(ws.drop_last() =~= Seq::<Seq<u8>>::empty());
    } else {
        let front = ws.drop_last();
        assert(forall|i: int| 0 <= i < front.len() ==> front[i] == ws[i]);
        lemma_scan_join(front);
        let p = join(front) + seq![SPACE];
        assert(p.drop_last() =~= join(front));
        assert(is_word(front.last()));
        assert(scan(p) == (front.drop_last().push(front.last()), e));
        assert(front.drop_last().push(front.last()) =~= front);
        lemma_scan_word(p, ws.last());
        assert(e + ws.last() =~= ws.last());
    }
}

/// Splits a line into its words.
pub fn split_words(line: &[u8]) -> (r: Vec<Vec<u8>>)
    ensures
        views(r@) == words(line@),
{
    let mut out: Vec<Vec<u8>> = Vec::new();
    let mut cur: Vec<u8> = Vec::new();
    let mut i: usize = 0;
    while i < line.len()
        invariant
            i <= line@.len(),
            scan(line@.take(i as int)) == (views(out@), cur@),
        decreases line@.len() - i,
    {
        let b = line[i];
        assert(line@.take(i + 1).drop_last() =~= line@.take(i as int));
        if b == 32 || b == 9 || b == 10 || b == 13 {
            if cur.len() > 0 {
                proof {
                    lemma_views_push(out@, cur);
                }
                out.push(cur);
                cur = Vec::new();
                assert(cur@ =~= Seq::<u8>::empty());
            }
        } else {
            cur.push(b);
        }
        i = i + 1;
    }
    assert(line@.take(line@.len() as int) =~= line@);
    if cur.len() > 0 {
        proof {
            lemma_views_push(out@, cur);
        }
        out.push(cur);
    }
    out
}

/// Joins `args[from..]` with one space between neighbours.
pub fn join_words(args: &Vec<Vec<u8>>, from: usize) -> (r: Vec<u8>)
    requires
        from <= args@.len(),
    ensures
        r@ == join(views(args@).skip(from as int)),
{
    let ghost all = views(args@);
    let mut r: Vec<u8> = Vec::new();
    let mut i: usize = from;
    while i < args.len()
        invariant
            from <= i <= args@.len(),
            all == views(args@),
            r@ == join(all.subrange(from as int, i as int)),
        decreases args@.len() - i,
    {
        let w = &args[i];
        if i > from {
            r.push(SPACE);
        }
        let ghost mid = r@;
        let mut j: usize = 0;
        while j < w.len()
            invariant
                j <= w@.len(),
                r@ == mid + w@.take(j as int),
            decreases w@.len() - j,
        {
            r.push(w[j]);
            j = j + 1;
            assert(mid + w@.take(j as int) =~= r@);
        }
        assert(w@.take(w@.len() as int) =~= w@);
        let ghost next = all.subrange(from as int, i + 1);
        assert(next.drop_last() =~= all.subrange(from as int, i as int));
        assert(next.last() == w@);
        if i == from {
            assert(mid =~= Seq::<u8>::empty());
            assert(r@ =~= w@);
        }
        i = i + 1;
    }
    assert(all.subrange(from as int, args@.len() as int) =~= all.skip(from as int));
    r
}

} // verus!
