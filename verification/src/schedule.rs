use vstd::prelude::*;
use vstd::string::StringExecFns;

verus! {

/// The `Debug` rendering of a string: quoted, with escapes.
pub uninterp spec fn debug_str(s: Seq<char>) -> Seq<char>;

/// `format!("{:?}", s)`: the `Debug` rendering of `s`, a function of its
/// characters alone.
#[verifier::external_body]
fn debug_of(s: &str) -> (r: String)
    ensures
        r@ == debug_str(s@),
{
    format!("{:?}", s)
}

/// `items` separated by `", "`.
pub open spec fn join_list(items: Seq<Seq<char>>) -> Seq<char>
    decreases items.len(),
{
    if items.len() == 0 {
        Seq::empty()
    } else if items.len() == 1 {
        items[0]
    } else {
        join_list(items.drop_last()) + ", "@ + items.last()
    }
}

/// The rendering of a pipeline whose systems render as `items`.
pub open spec fn pipeline_text(items: Seq<Seq<char>>) -> Seq<char> {
    "Schedule { systems: ["@ + join_list(items) + "] }"@
}

/// The list is the items in order with `", "` between neighbours: one item
/// stands alone, and each further item follows the list so far after a
/// comma and a space.
pub proof fn law_join_list_separates_with_comma(items: Seq<Seq<char>>, a: Seq<char>, b: Seq<char>)
    ensures
        join_list(Seq::empty()) == Seq::<char>::empty(),
        join_list(seq![a]) == a,
        join_list(seq![a, b]) == a + seq![',', ' '] + b,
        items.len() > 0 ==> join_list(items.push(b)) == join_list(items) + seq![',', ' '] + b,
        pipeline_text(items) == seq!['S', 'c', 'h', 'e', 'd', 'u', 'l', 'e', ' ', '{', ' ', 's', 'y', 's', 't', 'e', 'm', 's', ':', ' ', '[']
            + join_list(items) + seq![']', ' ', '}'],
{
    reveal_strlit(", ");
    reveal_strlit("Schedule { systems: [");
    reveal_strlit("] }");
    assert(seq![a].len() == 1);
    assert(seq![a, b].drop_last() =~= seq![a]);
    assert(join_list(seq![a]) == a);
    assert(seq![a, b].last() == b);
    assert(join_list(seq![a, b]) == join_list(seq![a]) + ", "@ + b);
    assert(items.push(b).drop_last() =~= items);
    assert(", "@ =~= seq![',', ' ']);
    assert("Schedule { systems: ["@ =~= seq!['S', 'c', 'h', 'e', 'd', 'u', 'l', 'e', ' ', '{', ' ', 's', 'y', 's', 't', 'e', 'm', 's', ':', ' ', '[']);
    assert("] }"@ =~= seq![']', ' ', '}']);
}

/// Render a pipeline from its systems' renderings, in order:
/// `Schedule { systems: [a, b] }`.
pub fn render_pipeline(items: &Vec<String>) -> (r: String)
    ensures
        r@ == pipeline_text(items@.map_values(|s: String| s@)),
{
    let ghost views = items@.map_values(|s: String| s@);
    let mut out = String::from_str("Schedule { systems: [");
    let mut i: usize = 0;
    while i < items.len()
        invariant
            i <= items@.len(),
            views == items@.map_values(|s: String| s@),
            out@ == "Schedule { systems: ["@ + join_list(views.take(i as int)),
        decreases items@.len() - i,
    {
        if i > 0 {
            out.append(", ");
        }
        out.append(items[i].as_str());
        proof {
            let t = views.take(i as int + 1);
            assert(t.drop_last() =~= views.take(i as int));
            assert(t.last() == items@[i as int]@);
            if i == 0 {
                assert(views.take(0) =~= Seq::<Seq<char>>::empty());
            }
            assert(out@ =~= "Schedule { systems: ["@ + join_list(t));
        }
        i = i + 1;
    }
    out.append("] }");
    proof {
        assert(views.take(views.len() as int) =~= views);
    }
    out
}

/// A named system.
pub struct System<F> {
    pub name: &'static str,
    pub run: F,
}

/// An ordered list of systems, run in the order they were added.
pub struct Schedule<F> {
    systems: Vec<System<F>>,
}

impl<F> View for Schedule<F> {
    type V = Seq<(&'static str, F)>;

    /// The systems' names and callables, in order.
    closed spec fn view(&self) -> Seq<(&'static str, F)> {
        Seq::new(self.systems@.len(), |i: int| (self.systems@[i].name, self.systems@[i].run))
    }
}

impl<F> Schedule<F> {
    /// An empty schedule.
    pub fn new() -> (r: Schedule<F>)
        ensures
            r@ == Seq::<(&'static str, F)>::empty(),
    {
        let r = Schedule { systems: Vec::new() };
        assert(r@ =~= Seq::<(&'static str, F)>::empty());
        r
    }

    /// Append a system after all the others.
    pub fn push(&mut self, name: &'static str, run: F) -> (r: &mut Self)
        ensures
            r@ == old(self)@.push((name, run)),
            *final(self) == *final(r),
    {
        self.systems.push(System { name, run });
        proof {
            assert(self@ =~= old(self)@.push((name, run)));
        }
        self
    }

    /// The systems' names, in order.
    pub fn names(&self) -> (r: Vec<&'static str>)
        ensures
            r@ == Seq::new(self@.len(), |i: int| self@[i].0),
    {
        let mut r: Vec<&'static str> = Vec::new();
        let mut i: usize = 0;
        while i < self.systems.len()
            invariant
                i <= self.systems@.len(),
                r@ == Seq::new(i as nat, |j: int| self@[j].0),
            decreases self.systems@.len() - i,
        {
            r.push(self.systems[i].name);
            i = i + 1;
            proof {
                assert(r@ =~= Seq::new(i as nat, |j: int| self@[j].0));
            }
        }
        r
    }

    /// Number of systems.
    pub fn len(&self) -> (r: usize)
        ensures
            r == self@.len(),
    {
        self.systems.len()
    }

    /// Whether there is no system.
    pub fn is_empty(&self) -> (r: bool)
        ensures
            r == (self@.len() == 0),
    {
        self.systems.len() == 0
    }

    /// Run every system once, in order, each on `ctx`: the first system gets
    /// the context as it was, each next one the context the previous left,
    /// and the context ends as the last left it. The systems stay in place.
    pub fn run<C>(&mut self, ctx: &mut C)
        where
            F: FnMut(&mut C),
        requires
            forall|i: int, c: &mut C| 0 <= i < old(self)@.len() ==> #[trigger] call_requires(old(self)@[i].1, (c,)),
        ensures
            final(self)@ == old(self)@,
            exists|calls: Seq<&mut C>| {
                &&& calls.len() == old(self)@.len()
                &&& calls.len() == 0 ==> *final(ctx) == *old(ctx)
                &&& calls.len() > 0 ==> mut_ref_current(calls[0]) == *old(ctx)
                &&& calls.len() > 0 ==> mut_ref_future(calls.last()) == *final(ctx)
                &&& forall|k: int|
                    0 <= k < calls.len() - 1 ==> mut_ref_future(#[trigger] calls[k]) == mut_ref_current(calls[k + 1])
                &&& forall|k: int| 0 <= k < calls.len() ==> call_ensures(old(self)@[k].1, (#[trigger] calls[k],), ())
            },
    {
        broadcast use vstd::function::group_function_axioms;
        assert(exists|calls: Seq<&mut C>| {
            &&& calls.len() == 0
            &&& calls.len() == 0 ==> *ctx == *old(ctx)
            &&& calls.len() > 0 ==> mut_ref_current(calls[0]) == *old(ctx)
            &&& calls.len() > 0 ==> mut_ref_future(calls.last()) == *ctx
            &&& forall|k: int|
                0 <= k < calls.len() - 1 ==> mut_ref_future(#[trigger] calls[k]) == mut_ref_current(calls[k + 1])
            &&& forall|k: int| 0 <= k < calls.len() ==> call_ensures(old(self)@[k].1, (#[trigger] calls[k],), ())
        }) by {
            let calls = Seq::<&mut C>::empty();
            assert({
                &&& calls.len() == 0
                &&& calls.len() == 0 ==> *ctx == *old(ctx)
                &&& calls.len() > 0 ==> mut_ref_current(calls[0]) == *old(ctx)
                &&& calls.len() > 0 ==> mut_ref_future(calls.last()) == *ctx
                &&& forall|k: int|
                    0 <= k < calls.len() - 1 ==> mut_ref_future(#[trigger] calls[k]) == mut_ref_current(calls[k + 1])
                &&& forall|k: int| 0 <= k < calls.len() ==> call_ensures(old(self)@[k].1, (#[trigger] calls[k],), ())
            });
        }
        let mut i: usize = 0;
        while i < self.systems.len()
            invariant
                i <= self.systems@.len(),
                self@ == old(self)@,
                forall|i: int, c: &mut C| 0 <= i < old(self)@.len() ==> #[trigger] call_requires(old(self)@[i].1, (c,)),
                exists|calls: Seq<&mut C>| {
                    &&& calls.len() == i
                    &&& calls.len() == 0 ==> *ctx == *old(ctx)
                    &&& calls.len() > 0 ==> mut_ref_current(calls[0]) == *old(ctx)
                    &&& calls.len() > 0 ==> mut_ref_future(calls.last()) == *ctx
                    &&& forall|k: int|
                        0 <= k < calls.len() - 1 ==> mut_ref_future(#[trigger] calls[k]) == mut_ref_current(calls[k + 1])
                    &&& forall|k: int| 0 <= k < calls.len() ==> call_ensures(old(self)@[k].1, (#[trigger] calls[k],), ())
                },
            decreases self.systems@.len() - i,
        {
            let ghost before = self.systems@;
            let ghost sys = old(self)@[i as int].1;
            let ghost v0 = *ctx;
            assert(exists|calls: Seq<&mut C>| {
                &&& calls.len() == i
                &&& calls.len() == 0 ==> v0 == *old(ctx)
                &&& calls.len() > 0 ==> mut_ref_current(calls[0]) == *old(ctx)
                &&& calls.len() > 0 ==> mut_ref_future(calls.last()) == v0
                &&& forall|k: int|
                    0 <= k < calls.len() - 1 ==> mut_ref_future(#[trigger] calls[k]) == mut_ref_current(calls[k + 1])
                &&& forall|k: int| 0 <= k < calls.len() ==> call_ensures(old(self)@[k].1, (#[trigger] calls[k],), ())
            });
            assert(self@[i as int].1 == before[i as int].run);
            let f = &mut self.systems[i].run;
            f(ctx);
            proof {
                assert(self.systems@ =~= before);
                assert(exists|r: &mut C|
                    call_ensures(sys, (r,), ()) && mut_ref_current(r) == v0 && mut_ref_future(r) == *ctx);
                let r = choose|r: &mut C|
                    call_ensures(sys, (r,), ()) && mut_ref_current(r) == v0 && mut_ref_future(r) == *ctx;
                let calls0 = choose|calls: Seq<&mut C>| {
                    &&& calls.len() == i
                    &&& calls.len() == 0 ==> v0 == *old(ctx)
                    &&& calls.len() > 0 ==> mut_ref_current(calls[0]) == *old(ctx)
                    &&& calls.len() > 0 ==> mut_ref_future(calls.last()) == v0
                    &&& forall|k: int|
                        0 <= k < calls.len() - 1 ==> mut_ref_future(#[trigger] calls[k]) == mut_ref_current(calls[k + 1])
                    &&& forall|k: int| 0 <= k < calls.len() ==> call_ensures(old(self)@[k].1, (#[trigger] calls[k],), ())
                };
                let calls = calls0.push(r);
                assert(calls[i as int] == r);
                assert forall|k: int| 0 <= k < calls.len() - 1 implies mut_ref_future(#[trigger] calls[k])
                    == mut_ref_current(calls[k + 1]) by {
                    if k < i - 1 {
                        assert(calls[k] == calls0[k] && calls[k + 1] == calls0[k + 1]);
                    } else {
                        assert(calls[k] == calls0.last());
                    }
                }
                assert forall|k: int| 0 <= k < calls.len() implies call_ensures(
                    old(self)@[k].1,
                    (#[trigger] calls[k],),
                    (),
                ) by {
                    if k < i {
                        assert(calls[k] == calls0[k]);
                    }
                }
                assert({
                    &&& calls.len() == i + 1
                    &&& calls.len() == 0 ==> *ctx == *old(ctx)
                    &&& calls.len() > 0 ==> mut_ref_current(calls[0]) == *old(ctx)
                    &&& calls.len() > 0 ==> mut_ref_future(calls.last()) == *ctx
                    &&& forall|k: int|
                        0 <= k < calls.len() - 1 ==> mut_ref_future(#[trigger] calls[k]) == mut_ref_current(calls[k + 1])
                    &&& forall|k: int| 0 <= k < calls.len() ==> call_ensures(old(self)@[k].1, (#[trigger] calls[k],), ())
                });
            }
            i = i + 1;
        }
    }

    /// The callable of the `i`-th system, to run it.
    pub fn system_mut(&mut self, i: usize) -> (r: &mut F)
        requires
            i < old(self)@.len(),
        ensures
            *r == old(self)@[i as int].1,
            final(self)@ == old(self)@.update(i as int, (old(self)@[i as int].0, *final(r))),
    {
        &mut self.systems[i].run
    }

    /// A rendering of the pipeline for diagnostics: the system names in
    /// order, as `Schedule { systems: ["a", "b"] }`.
    pub fn debug_string(&self) -> (r: String)
        ensures
            r@ == pipeline_text(Seq::new(self@.len(), |i: int| debug_str(self@[i].0@))),
    {
        let mut items: Vec<String> = Vec::new();
        let mut i: usize = 0;
        while i < self.systems.len()
            invariant
                i <= self.systems@.len(),
                items@.len() == i,
                forall|j: int| 0 <= j < i ==> #[trigger] items@[j]@ == debug_str(self@[j].0@),
            decreases self.systems@.len() - i,
        {
            let item = debug_of(self.systems[i].name);
            assert(self@[i as int].0 == self.systems@[i as int].name);
            items.push(item);
            i = i + 1;
        }
        assert(items@.map_values(|s: String| s@) =~= Seq::new(self@.len(), |j: int| debug_str(self@[j].0@)));
        render_pipeline(&items)
    }
}

} // verus!
