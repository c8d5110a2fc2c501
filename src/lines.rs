use vstd::prelude::*;

verus! {

/// The line feed byte that ends each line of the store file.
pub const NEWLINE: u8 = 10;

/// The file bytes for `lines`: each line followed by a line feed.
pub open spec fn joined(lines: Seq<Seq<u8>>) -> Seq<u8>
    decreases lines.len(),
{
    if lines.len() == 0 {
        seq![]
    } else {
        lines[0] + seq![NEWLINE] + joined(lines.drop_first())
    }
}

/// The non-empty lines of `bytes`, the line under way holding `cur`.
pub open spec fn split_from(bytes: Seq<u8>, cur: Seq<u8>) -> Seq<Seq<u8>>
    decreases bytes.len(),
{
    if bytes.len() == 0 {
        if cur.len() == 0 {
            seq![]
        } else {
            seq![cur]
        }
    } else if bytes[0] == NEWLINE {
        let rest = split_from(bytes.drop_first(), seq![]);
        if cur.len() == 0 {
            rest
        } else {
            seq![cur] + rest
        }
    } else {
        split_from(bytes.drop_first(), cur.push(bytes[0]))
    }
}

/// The contents of each line of `v`.
pub open spec fn bytes_of(v: Seq<Vec<u8>>) -> Seq<Seq<u8>> {
    v.map_values(|l: Vec<u8>| l@)
}

/// The non-empty lines of `bytes`, in order, without their line feeds.
pub open spec fn split(bytes: Seq<u8>) -> Seq<Seq<u8>> {
    split_from(bytes, seq![])
}

/// A line that the store file can hold: not empty, no line feed in it.
pub open spec fn is_line(line: Seq<u8>) -> bool {
    line.len() > 0 && !line.contains(NEWLINE)
}

proof fn lemma_split_scan(line: Seq<u8>, rest: Seq<u8>, cur: Seq<u8>)
    requires
        !line.contains(NEWLINE),
    ensures
        split_from(line + rest, cur) == split_from(rest, cur + line),
    decreases line.len(),
{
    if line.len() > 0 {
        let tail = line.drop_first();
        assert((line + rest).drop_first() =~= tail + rest);
        assert(!tail.contains(NEWLINE)) by {
            if tail.contains(NEWLINE) {
                let i = choose|i: int| 0 <= i < tail.len() && tail[i] == NEWLINE;
                assert(line[i + 1] == NEWLINE);
            }
        }
        assert(line[0] != NEWLINE) by {
            if line[0] == NEWLINE {
                assert(line.contains(NEWLINE));
            }
        }
        lemma_split_scan(tail, rest, cur.push(line[0]));
        assert(cur.push(line[0]) + tail =~= cur + line);
    } else {
        assert(line + rest =~= rest);
        assert(cur + line =~= cur);
    }
}

/// Reading back the bytes written for well-formed lines gives those lines,
/// in order.
pub proof fn lemma_split_joined(lines: Seq<Seq<u8>>)
    requires
        forall|i: int| 0 <= i < lines.len() ==> is_line(#[trigger] lines[i]),
    ensures
        split(joined(lines)) == lines,
    decreases lines.len(),
{
    if lines.len() > 0 {
        let rest = lines.drop_first();
        assert forall|i: int| 0 <= i < rest.len() implies is_line(#[trigger] rest[i]) by {
            assert(rest[i] == lines[i + 1]);
        }
        lemma_split_joined(rest);
        let after = seq![NEWLINE] + joined(rest);
        assert(joined(lines) =~= lines[0] + after);
        lemma_split_scan(lines[0], after, seq![]);
        assert(seq![] + lines[0] =~= lines[0]);
        assert(after.drop_first() =~= joined(rest));
        assert(seq![lines[0]] + rest =~= lines);
    } else {
        assert(split(joined(lines)) =~= lines);
    }
}

/// Writing again what was read from written bytes gives the same bytes.
pub proof fn lemma_rewrite_identical(lines: Seq<Seq<u8>>)
    requires
        forall|i: int| 0 <= i < lines.len() ==> is_line(#[trigger] lines[i]),
    ensures
        joined(split(joined(lines))) == joined(lines),
{
    lemma_split_joined(lines);
}

/// The bytes of the store file for `lines`.
pub fn join_lines(lines: &Vec<Vec<u8>>) -> (r: Vec<u8>)
    ensures
        r@ == joined(bytes_of(lines@)),
{
    let ghost all = bytes_of(lines@);
    let mut r: Vec<u8> = Vec::new();
    let mut i: usize = 0;
    assert(all.skip(0) =~= all);
    assert(r@ + joined(all) =~= joined(all));
    while i < lines.len()
        invariant
            all == bytes_of(lines@),
            i <= all.len(),
            r@ + joined(all.skip(i as int)) == joined(all),
        decreases all.len() - i,
    {
        let line = &lines[i];
        let ghost before = r@;
        let mut j: usize = 0;
        while j < line.len()
            invariant
                all == bytes_of(lines@),
                i < all.len(),
                line@ == all[i as int],
                j <= line@.len(),
                r@ == before + line@.take(j as int),
            decreases line@.len() - j,
        {
            r.push(line[j]);
            j = j + 1;
            assert(r@ =~= before + line@.take(j as int));
        }
        r.push(NEWLINE);
        assert(all.skip(i as int).drop_first() =~= all.skip(i as int + 1));
        assert(line@.take(line@.len() as int) =~= line@);
        assert(joined(all.skip(i as int)) == all[i as int] + seq![NEWLINE] + joined(
            all.skip(i as int + 1),
        ));
        assert(r@ + joined(all.skip(i as int + 1)) =~= before + joined(all.skip(i as int)));
        i = i + 1;
    }
    assert(all.skip(i as int) =~= Seq::<Seq<u8>>::empty());
    assert(r@ + seq![] =~= r@);
    r
}

/// The non-empty lines of the store file `bytes`, in order.
pub fn split_lines(bytes: &[u8]) -> (r: Vec<Vec<u8>>)
    ensures
        bytes_of(r@) == split(bytes@),
{
    let mut r: Vec<Vec<u8>> = Vec::new();
    let mut cur: Vec<u8> = Vec::new();
    let mut i: usize = 0;
    assert(bytes@.skip(0) =~= bytes@);
    assert(bytes_of(r@) + split_from(bytes@, cur@) =~= split(bytes@));
    while i < bytes.len()
        invariant
            i <= bytes@.len(),
            bytes_of(r@) + split_from(bytes@.skip(i as int), cur@) == split(bytes@),
        decreases bytes@.len() - i,
    {
        let b = bytes[i];
        let ghost rest = bytes@.skip(i as int);
        assert(rest.drop_first() =~= bytes@.skip(i as int + 1));
        if b == NEWLINE {
            if cur.len() > 0 {
                let ghost dv = bytes_of(r@);
                let ghost c = cur@;
                r.push(cur);
                assert(bytes_of(r@) =~= dv.push(c));
                assert(dv + (seq![c] + split_from(bytes@.skip(i as int + 1), seq![]))
                    =~= dv.push(c) + split_from(bytes@.skip(i as int + 1), seq![]));
            }
            cur = Vec::new();
            assert(cur@ =~= Seq::<u8>::empty());
        } else {
            cur.push(b);
        }
        i = i + 1;
    }
    assert(bytes@.skip(i as int) =~= Seq::<u8>::empty());
    if cur.len() > 0 {
        let ghost dv = bytes_of(r@);
        let ghost c = cur@;
        r.push(cur);
        assert(bytes_of(r@) =~= dv.push(c));
        assert(dv + seq![c] =~= dv.push(c));
    } else {
        assert(bytes_of(r@) + seq![] =~= bytes_of(r@));
    }
    r
}

} // verus!
