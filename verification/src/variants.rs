use vstd::prelude::*;

verus! {

/// The values of the items that are present, in their order.
pub open spec fn present_values<W>(s: Seq<Option<W>>) -> Seq<W>
    decreases s.len(),
{
    if s.len() == 0 {
        Seq::empty()
    } else {
        let rest = present_values(s.drop_last());
        match s.last() {
            Some(w) => rest.push(w),
            None => rest,
        }
    }
}

/// Keeps the items that converted (each item's conversion result, `None`
/// where it failed), in their order.
pub fn filter_to_vec<Wanted>(v: Vec<Option<Wanted>>) -> (res: Vec<Wanted>)
    ensures
        res@ == present_values(v@),
{
    let ghost all = v@;
    let mut v = v;
    // Moved over back to front, so that popping gives the items in order.
    let mut stack: Vec<Option<Wanted>> = Vec::new();
    while v.len() > 0
        invariant
            v@ + stack@.reverse() == all,
        decreases v@.len(),
    {
        let ghost before = stack@;
        let item = v.pop().unwrap();
        stack.push(item);
        proof {
            assert(stack@.reverse() =~= seq![item] + before.reverse());
        }
    }
    let mut res: Vec<Wanted> = Vec::new();
    while stack.len() > 0
        invariant
            stack@.len() <= all.len(),
            stack@.reverse() == all.subrange(all.len() - stack@.len(), all.len() as int),
            res@ == present_values(all.subrange(0, all.len() - stack@.len())),
        decreases stack@.len(),
    {
        let ghost k = all.len() - stack@.len();
        let ghost before = stack@;
        let item = stack.pop().unwrap();
        proof {
            assert(before.reverse()[0] == item);
            assert(all[k] == item);
            assert(stack@.reverse() =~= before.reverse().drop_first());
            assert(all.subrange(0, k + 1).drop_last() =~= all.subrange(0, k));
        }
        match item {
            Some(w) => res.push(w),
            None => {},
        }
    }
    proof {
        assert(all.subrange(0, all.len() as int) =~= all);
    }
    res
}

} // verus!
