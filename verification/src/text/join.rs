use vstd::prelude::*;

verus! {

/// The items joined with `join` between each two of them.
pub open spec fn joined(items: Seq<Seq<char>>, join: Seq<char>) -> Seq<char>
    decreases items.len(),
{
    if items.len() == 0 {
        Seq::empty()
    } else if items.len() == 1 {
        items[0]
    } else {
        joined(items.drop_last(), join) + join + items.last()
    }
}

/// Appends `items`, joined with `join`, to `f`.
pub fn write_join(f: &mut String, items: &Vec<String>, join: &str)
    ensures
        final(f)@ == old(f)@ + joined(items@.map_values(|s: String| s@), join@),
{
    let ghost views = items@.map_values(|s: String| s@);
    let mut i: usize = 0;
    while i < items.len()
        invariant
            0 <= i <= items@.len(),
            views == items@.map_values(|s: String| s@),
            f@ == old(f)@ + joined(views.take(i as int), join@),
        decreases items.len() - i,
    {
        if i != 0 {
            f.append(join);
        }
        f.append(items[i].as_str());
        proof {
            assert(views.take(i + 1).drop_last() =~= views.take(i as int));
            if i == 0 {
                assert(joined(views.take(0), join@) =~= Seq::<char>::empty());
            }
        }
        i = i + 1;
    }
    assert(views.take(items@.len() as int) =~= views);
}

} // verus!
