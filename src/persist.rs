use vstd::prelude::*;
use crate::list::{List, Record, add_spec, has_user, keys_unique, record_view};
use crate::text::{split_char, split_spec, views, push_char, lemma_split_len};

verus! {

/// One record as a line of the credential file, without its line feed.
pub open spec fn line_of(r: Record) -> Seq<char> {
    r.0 + seq!['\t'] + r.1
}

/// The credential file's text: one `username<TAB>password<LF>` line per record,
/// in the store's order.
pub open spec fn serialize_spec(recs: Seq<Record>) -> Seq<char>
    decreases recs.len(),
{
    if recs.len() == 0 {
        Seq::<char>::empty()
    } else {
        serialize_spec(recs.drop_last()) + line_of(recs.last()) + seq!['\n']
    }
}

/// The records that a sequence of lines loads into: empty lines are skipped,
/// every other line must hold exactly two tab-separated fields, and each record
/// is added as the store adds (a username seen before keeps its first
/// password). `None` when some line is malformed.
pub open spec fn parse_lines(lines: Seq<Seq<char>>) -> Option<Seq<Record>>
    decreases lines.len(),
{
    if lines.len() == 0 {
        Some(Seq::<Record>::empty())
    } else {
        match parse_lines(lines.drop_last()) {
            None => None,
            Some(recs) => {
                let l = lines.last();
                if l.len() == 0 {
                    Some(recs)
                } else {
                    let f = split_spec(l, '\t');
                    if f.len() != 2 {
                        None
                    } else {
                        Some(add_spec(recs, f[0], f[1]))
                    }
                }
            },
        }
    }
}

/// The records that the text of a credential file loads into.
pub open spec fn parse_spec(data: Seq<char>) -> Option<Seq<Record>> {
    parse_lines(split_spec(data, '\n'))
}

/// Neither field of any record holds a tab or a line feed.
pub open spec fn fields_plain(recs: Seq<Record>) -> bool {
    forall|i: int| 0 <= i < recs.len() ==> {
        &&& !(#[trigger] recs[i]).0.contains('\t')
        &&& !recs[i].0.contains('\n')
        &&& !recs[i].1.contains('\t')
        &&& !recs[i].1.contains('\n')
    }
}

proof fn lemma_parse_none_extends(lines: Seq<Seq<char>>, k: int)
    requires
        0 <= k <= lines.len(),
        parse_lines(lines.take(k)) is None,
    ensures
        parse_lines(lines) is None,
    decreases lines.len(),
{
    if k < lines.len() {
        let init = lines.drop_last();
        assert(init.take(k) =~= lines.take(k));
        lemma_parse_none_extends(init, k);
    } else {
        assert(lines.take(k) =~= lines);
    }
}

/// Splitting text that ends in a run without the separator extends the last piece.
proof fn lemma_split_append_plain(p: Seq<char>, x: Seq<char>, sep: char)
    requires
        !x.contains(sep),
    ensures
        split_spec(p + x, sep) == split_spec(p, sep).update(
            split_spec(p, sep).len() - 1,
            split_spec(p, sep).last() + x,
        ),
        split_spec(p + x, sep).len() == split_spec(p, sep).len(),
    decreases x.len(),
{
    let sp = split_spec(p, sep);
    lemma_split_len(p, sep);
    if x.len() == 0 {
        assert(p + x =~= p);
        assert(sp.last() + x =~= sp.last());
        assert(sp.update(sp.len() - 1, sp.last()) =~= sp);
    } else {
        let x0 = x.drop_last();
        assert(!x0.contains(sep)) by {
            if x0.contains(sep) {
                let j = choose|j: int| 0 <= j < x0.len() && x0[j] == sep;
                assert(x[j] == sep);
            }
        }
        lemma_split_append_plain(p, x0, sep);
        assert((p + x).drop_last() =~= p + x0);
        assert((p + x).last() == x.last());
        assert(x[x.len() - 1] != sep);
        let q = split_spec(p + x0, sep);
        assert(q.last() == sp.last() + x0);
        assert((sp.last() + x0).push(x.last()) =~= sp.last() + x);
        assert(q.update(q.len() - 1, q.last().push(x.last())) =~= sp.update(
            sp.len() - 1,
            sp.last() + x,
        ));
    }
}

proof fn lemma_split_append_sep(p: Seq<char>, sep: char)
    ensures
        split_spec(p + seq![sep], sep) == split_spec(p, sep).push(Seq::<char>::empty()),
{
    assert((p + seq![sep]).drop_last() =~= p);
}

/// The lines of a serialized store, before the final empty piece.
pub open spec fn lines_of(recs: Seq<Record>) -> Seq<Seq<char>> {
    recs.map_values(|r: Record| line_of(r))
}

proof fn lemma_plain_no(s: Seq<char>, c: char, d: char)
    requires
        !s.contains(c),
        c != d,
    ensures
        !(s + seq![d]).contains(c),
{
    if (s + seq![d]).contains(c) {
        let j = choose|j: int| 0 <= j < (s + seq![d]).len() && (s + seq![d])[j] == c;
        if j < s.len() {
            assert(s[j] == c);
        }
    }
}

proof fn lemma_plain_cat(s: Seq<char>, t: Seq<char>, c: char)
    requires
        !s.contains(c),
        !t.contains(c),
    ensures
        !(s + t).contains(c),
{
    if (s + t).contains(c) {
        let j = choose|j: int| 0 <= j < (s + t).len() && (s + t)[j] == c;
        if j < s.len() {
            assert(s[j] == c);
        } else {
            assert(t[j - s.len()] == c);
        }
    }
}

proof fn lemma_split_serialized(recs: Seq<Record>)
    requires
        fields_plain(recs),
    ensures
        split_spec(serialize_spec(recs), '\n') == lines_of(recs).push(Seq::<char>::empty()),
    decreases recs.len(),
{
    if recs.len() == 0 {
        assert(split_spec(Seq::<char>::empty(), '\n') =~= seq![Seq::<char>::empty()]);
        assert(lines_of(recs).push(Seq::<char>::empty()) =~= seq![Seq::<char>::empty()]);
    } else {
        let init = recs.drop_last();
        let r = recs.last();
        assert(fields_plain(init)) by {
            assert forall|i: int| 0 <= i < init.len() implies {
                &&& !(#[trigger] init[i]).0.contains('\t')
                &&& !init[i].0.contains('\n')
                &&& !init[i].1.contains('\t')
                &&& !init[i].1.contains('\n')
            } by {
                assert(init[i] == recs[i]);
            }
        }
        lemma_split_serialized(init);
        let s = serialize_spec(init);
        let l = line_of(r);
        assert(recs[recs.len() - 1] == r);
        lemma_plain_no(r.0, '\n', '\t');
        lemma_plain_cat(r.0 + seq!['\t'], r.1, '\n');
        lemma_split_append_plain(s, l, '\n');
        lemma_split_append_sep(s + l, '\n');
        assert(serialize_spec(recs) == s + l + seq!['\n']);
        assert(Seq::<char>::empty() + l =~= l);
        assert(lines_of(recs) =~= lines_of(init).push(l));
        assert(split_spec(s + l, '\n') =~= lines_of(init).push(l));
    }
}

proof fn lemma_split_line(r: Record)
    requires
        !r.0.contains('\t'),
        !r.1.contains('\t'),
    ensures
        split_spec(line_of(r), '\t') == seq![r.0, r.1],
{
    let e = Seq::<char>::empty();
    lemma_split_append_plain(e, r.0, '\t');
    assert(e + r.0 =~= r.0);
    assert(split_spec(e, '\t') =~= seq![e]);
    assert(e + r.0 =~= r.0);
    assert(split_spec(r.0, '\t') =~= seq![r.0]);
    lemma_split_append_sep(r.0, '\t');
    lemma_split_append_plain(r.0 + seq!['\t'], r.1, '\t');
    assert(e + r.1 =~= r.1);
    assert(split_spec(line_of(r), '\t') =~= seq![r.0, r.1]);
}

proof fn lemma_parse_lines_of(recs: Seq<Record>)
    requires
        fields_plain(recs),
        keys_unique(recs),
    ensures
        parse_lines(lines_of(recs)) == Some(recs),
    decreases recs.len(),
{
    if recs.len() == 0 {
        assert(lines_of(recs) =~= Seq::<Seq<char>>::empty());
    } else {
        let init = recs.drop_last();
        let r = recs.last();
        assert(recs[recs.len() - 1] == r);
        assert(fields_plain(init)) by {
            assert forall|i: int| 0 <= i < init.len() implies {
                &&& !(#[trigger] init[i]).0.contains('\t')
                &&& !init[i].0.contains('\n')
                &&& !init[i].1.contains('\t')
                &&& !init[i].1.contains('\n')
            } by {
                assert(init[i] == recs[i]);
            }
        }
        assert(keys_unique(init)) by {
            assert forall|i: int, j: int| 0 <= i < j < init.len() implies #[trigger] init[i].0
                != #[trigger] init[j].0 by {
                assert(init[i] == recs[i]);
                assert(init[j] == recs[j]);
            }
        }
        lemma_parse_lines_of(init);
        assert(lines_of(recs).drop_last() =~= lines_of(init));
        lemma_split_line(r);
        assert(line_of(r).len() > 0) by {
            assert(line_of(r)[r.0.len() as int] == '\t');
        }
        assert(!has_user(init, r.0)) by {
            if has_user(init, r.0) {
                let i = choose|i: int| 0 <= i < init.len() && #[trigger] init[i].0 == r.0;
                assert(recs[i].0 == recs[recs.len() - 1].0);
            }
        }
        assert(init.push(r) =~= recs);
    }
}

/// Loading what was saved gives back the same records, in the same order,
/// for every store whose fields hold no tab or line feed.
pub proof fn lemma_round_trip(recs: Seq<Record>)
    requires
        keys_unique(recs),
        fields_plain(recs),
    ensures
        parse_spec(serialize_spec(recs)) == Some(recs),
{
    lemma_split_serialized(recs);
    lemma_parse_lines_of(recs);
    let lines = lines_of(recs).push(Seq::<char>::empty());
    assert(lines.drop_last() =~= lines_of(recs));
}

/// Loads the records of a credential file's text; `None` when a non-empty
/// line does not hold exactly two tab-separated fields.
pub fn create_data_list(data: &str) -> (r: Option<List>)
    ensures
        match r {
            Some(l) => parse_spec(data@) == Some(l@) && l.wf(),
            None => parse_spec(data@) is None,
        },
{
    let lines = split_char(data, '\n');
    let ghost lv = views(lines@);
    let mut list = List::new();
    let mut i: usize = 0;
    proof {
        assert(lv.take(0) =~= Seq::<Seq<char>>::empty());
    }
    while i < lines.len()
        invariant
            lv == views(lines@),
            lv == split_spec(data@, '\n'),
            i <= lines@.len(),
            parse_lines(lv.take(i as int)) == Some(list@),
            list.wf(),
        decreases lines@.len() - i,
    {
        let line = &lines[i];
        proof {
            assert(lv.take(i + 1).drop_last() =~= lv.take(i as int));
            assert(lv.take(i + 1).last() == line@);
        }
        if line.unicode_len() > 0 {
            let args = split_char(line.as_str(), '\t');
            if args.len() != 2 {
                proof {
                    lemma_parse_none_extends(lv, i + 1);
                }
                return None;
            }
            proof {
                assert(views(args@)[0] == args@[0]@);
                assert(views(args@)[1] == args@[1]@);
            }
            list.add(args[0].as_str(), args[1].as_str());
        }
        i = i + 1;
    }
    proof {
        assert(lv.take(i as int) =~= lv);
    }
    Some(list)
}

/// The credential file's text for a store.
pub fn get_user_list_as_string(ulist: &List) -> (r: String)
    ensures
        r@ == serialize_spec(ulist@),
{
    let mut s = String::new();
    match ulist.get() {
        Some(recs) => {
            let ghost rv = recs@.map_values(|e: (String, String)| record_view(e));
            let mut i: usize = 0;
            proof {
                assert(rv.take(0) =~= Seq::<Record>::empty());
            }
            while i < recs.len()
                invariant
                    rv == recs@.map_values(|e: (String, String)| record_view(e)),
                    rv == ulist@,
                    i <= recs@.len(),
                    s@ == serialize_spec(rv.take(i as int)),
                decreases recs@.len() - i,
            {
                let ghost before = s@;
                s.append(recs[i].0.as_str());
                push_char(&mut s, '\t');
                s.append(recs[i].1.as_str());
                push_char(&mut s, '\n');
                proof {
                    let t = rv.take(i + 1);
                    assert(t.drop_last() =~= rv.take(i as int));
                    assert(t.last() == record_view(recs@[i as int]));
                    assert(s@ =~= before + line_of(t.last()) + seq!['\n']);
                }
                i = i + 1;
            }
            proof {
                assert(rv.take(i as int) =~= rv);
            }
        },
        None => {
            proof {
                assert(serialize_spec(ulist@) == Seq::<char>::empty());
            }
        },
    }
    s
}

} // verus!
