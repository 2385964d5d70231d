//! Tool calls in flight: assembled from the pieces that a streamed reply
//! brings, in the order of their indices.

use std::collections::BTreeMap;
use vstd::prelude::*;
use vstd::string::StringExecFns;

use crate::replies::FunctionDeltaView;
use crate::replies::OpenAiStreamToolCallDelta;
use crate::replies::ToolCallDeltaView;

verus! {

/// A call that is being assembled. The `id` and the `name` come with the
/// first piece, the JSON `arguments` bit by bit.
#[derive(Debug, Clone, PartialEq, Eq)]
pub struct PendingToolCall {
    pub id: String,
    pub name: String,
    pub arguments: String,
}

/// What [`PendingToolCall`] holds.
#[verifier::ext_equal]
pub struct PendingCallView {
    pub id: Seq<char>,
    pub name: Seq<char>,
    pub arguments: Seq<char>,
}

impl DeepView for PendingToolCall {
    type V = PendingCallView;

    open spec fn deep_view(&self) -> PendingCallView {
        PendingCallView { id: self.id@, name: self.name@, arguments: self.arguments@ }
    }
}

impl Default for PendingToolCall {
    fn default() -> (r: Self)
        ensures
            r.deep_view() == no_call_yet(),
    {
        PendingToolCall { id: String::new(), name: String::new(), arguments: String::new() }
    }
}

/// The calls in flight, by their index.
pub type PendingCalls = Map<usize, PendingCallView>;

/// What a map of calls holds.
pub open spec fn calls_of(m: Map<usize, PendingToolCall>) -> PendingCalls {
    m.map_values(|c: PendingToolCall| c.deep_view())
}

// ---- Assembling ------------------------------------------------------------

/// A call of which nothing is known yet.
pub open spec fn no_call_yet() -> PendingCallView {
    PendingCallView { id: Seq::empty(), name: Seq::empty(), arguments: Seq::empty() }
}

/// `new` where it is there and not empty, else `old_text`.
pub open spec fn updated_text(old_text: Seq<char>, new: Option<Seq<char>>) -> Seq<char> {
    match new {
        Some(t) => if t.len() > 0 {
            t
        } else {
            old_text
        },
        None => old_text,
    }
}

/// The name that a piece gives the call.
pub open spec fn name_in(d: ToolCallDeltaView) -> Option<Seq<char>> {
    match d.function {
        Some(f) => f.name,
        None => None,
    }
}

/// The bit of the arguments that a piece brings.
pub open spec fn fragment_in(d: ToolCallDeltaView) -> Seq<char> {
    match d.function {
        Some(f) => match f.arguments {
            Some(a) => a,
            None => Seq::empty(),
        },
        None => Seq::empty(),
    }
}

/// A call once a piece has been added to it.
pub open spec fn merged(call: PendingCallView, d: ToolCallDeltaView) -> PendingCallView {
    PendingCallView {
        id: updated_text(call.id, d.id),
        name: updated_text(call.name, name_in(d)),
        arguments: call.arguments + fragment_in(d),
    }
}

/// The call at `index`, or one of which nothing is known yet.
pub open spec fn call_at(calls: PendingCalls, index: usize) -> PendingCallView {
    if calls.contains_key(index) {
        calls[index]
    } else {
        no_call_yet()
    }
}

/// The calls once a piece has been added.
pub open spec fn absorbed_one(calls: PendingCalls, d: ToolCallDeltaView) -> PendingCalls {
    calls.insert(d.index, merged(call_at(calls, d.index), d))
}

/// The calls once the pieces have been added one after the other.
pub open spec fn absorbed(calls: PendingCalls, deltas: Seq<ToolCallDeltaView>) -> PendingCalls
    decreases deltas.len(),
{
    if deltas.len() == 0 {
        calls
    } else {
        absorbed_one(absorbed(calls, deltas.drop_last()), deltas.last())
    }
}

impl PendingToolCall {
    /// Adds a piece: it may set the id, set the name, or extend the arguments.
    fn merge(&mut self, d: &OpenAiStreamToolCallDelta)
        ensures
            final(self).deep_view() == merged(old(self).deep_view(), d.deep_view()),
    {
        if let Some(id) = &d.id {
            if !id.as_str().is_empty() {
                self.id = id.clone();
            }
        }
        if let Some(function) = &d.function {
            if let Some(name) = &function.name {
                if !name.as_str().is_empty() {
                    self.name = name.clone();
                }
            }
            if let Some(arguments) = &function.arguments {
                self.arguments.append(arguments.as_str());
            }
        }
        assert(self.arguments@ =~= old(self).arguments@ + fragment_in(d.deep_view()));
    }

    /// The same call again.
    fn copy(&self) -> (r: Self)
        ensures
            r.deep_view() == self.deep_view(),
    {
        PendingToolCall {
            id: self.id.clone(),
            name: self.name.clone(),
            arguments: self.arguments.clone(),
        }
    }
}

fn absorb_one(calls: &mut BTreeMap<usize, PendingToolCall>, d: &OpenAiStreamToolCallDelta)
    ensures
        calls_of(final(calls)@) == absorbed_one(calls_of(old(calls)@), d.deep_view()),
{
    let ghost before = calls@;
    let mut call: PendingToolCall = match calls.remove(&d.index) {
        Some(call) => call,
        None => PendingToolCall::default(),
    };
    assert(call.deep_view() == call_at(calls_of(before), d.index));
    call.merge(d);
    calls.insert(d.index, call);
    assert(calls_of(calls@) =~= absorbed_one(calls_of(before), d.deep_view()));
}

/// Adds the pieces one after the other.
pub(crate) fn absorb(
    calls: &mut BTreeMap<usize, PendingToolCall>,
    deltas: &Vec<OpenAiStreamToolCallDelta>,
)
    ensures
        calls_of(final(calls)@) == absorbed(calls_of(old(calls)@), deltas.deep_view()),
{
    let ghost all = deltas.deep_view();
    let ghost before = calls_of(calls@);
    let mut i: usize = 0;
    assert(all.take(0) =~= Seq::empty());
    while i < deltas.len()
        invariant
            i <= deltas@.len(),
            all == deltas.deep_view(),
            calls_of(calls@) == absorbed(before, all.take(i as int)),
        decreases deltas@.len() - i,
    {
        absorb_one(calls, &deltas[i]);
        proof {
            assert(all.take(i + 1).drop_last() =~= all.take(i as int));
            assert(all.take(i + 1).last() == deltas[i as int].deep_view());
        }
        i = i + 1;
    }
    assert(all.take(i as int) =~= all);
}

// ---- Order -----------------------------------------------------------------

/// The indices in use, in increasing order.
pub open spec fn is_index_order(indices: Seq<usize>, calls: PendingCalls) -> bool {
    &&& forall|i: int, j: int|
        0 <= i < j < indices.len() ==> #[trigger] indices[i] < #[trigger] indices[j]
    &&& forall|i: int| 0 <= i < indices.len() ==> calls.contains_key(#[trigger] indices[i])
    &&& forall|k: usize| #[trigger] calls.contains_key(k) ==> indices.contains(k)
}

/// The calls in the order of their indices.
pub open spec fn in_order(calls: PendingCalls) -> Seq<PendingCallView> {
    let indices = choose|indices: Seq<usize>| is_index_order(indices, calls);
    indices.map_values(|k: usize| calls[k])
}

/// There is only one order of the indices.
pub proof fn lemma_one_order(a: Seq<usize>, b: Seq<usize>, calls: PendingCalls)
    requires
        is_index_order(a, calls),
        is_index_order(b, calls),
    ensures
        a == b,
    decreases a.len(),
{
    if a.len() == 0 {
        if b.len() > 0 {
            assert(calls.contains_key(b[0]));
            assert(a.contains(b[0]));
        }
        assert(a =~= b);
    } else {
        let x = a.last();
        assert(calls.contains_key(a[a.len() - 1]));
        assert(b.contains(x));
        let j = choose|j: int| 0 <= j < b.len() && b[j] == x;
        let y = b.last();
        assert(calls.contains_key(b[b.len() - 1]));
        assert(a.contains(y));
        let i = choose|i: int| 0 <= i < a.len() && a[i] == y;
        assert(x <= y) by {
            if j < b.len() - 1 {
                assert(b[j] < b[b.len() - 1]);
            }
        }
        assert(y <= x) by {
            if i < a.len() - 1 {
                assert(a[i] < a[a.len() - 1]);
            }
        }
        let rest = calls.remove(x);
        lemma_order_without_last(a, calls);
        lemma_order_without_last(b, calls);
        lemma_one_order(a.drop_last(), b.drop_last(), rest);
        assert(a =~= a.drop_last().push(x));
        assert(b =~= b.drop_last().push(x));
    }
}

proof fn lemma_order_without_last(a: Seq<usize>, calls: PendingCalls)
    requires
        a.len() > 0,
        is_index_order(a, calls),
    ensures
        is_index_order(a.drop_last(), calls.remove(a.last())),
{
    let n = a.len() - 1;
    let shorter = a.drop_last();
    let rest = calls.remove(a.last());
    assert forall|i: int| 0 <= i < shorter.len() implies rest.contains_key(
        #[trigger] shorter[i],
    ) by {
        assert(a[i] < a[n]);
        assert(calls.contains_key(a[i]));
    }
    assert forall|k: usize| #[trigger] rest.contains_key(k) implies shorter.contains(k) by {
        assert(calls.contains_key(k));
        assert(a.contains(k));
        let i = choose|i: int| 0 <= i < a.len() && a[i] == k;
        assert(shorter[i] == k);
    }
}

/// A set of indices that is not empty has a greatest one.
proof fn lemma_greatest(indices: Set<usize>) -> (m: usize)
    requires
        indices.finite(),
        indices.len() > 0,
    ensures
        indices.contains(m),
        forall|k: usize| #[trigger] indices.contains(k) ==> k <= m,
    decreases indices.len(),
{
    let x = indices.choose();
    let rest = indices.remove(x);
    if rest.len() == 0 {
        assert forall|k: usize| #[trigger] indices.contains(k) implies k <= x by {
            if k != x {
                assert(rest.contains(k));
            }
        }
        x
    } else {
        let m = lemma_greatest(rest);
        let top = if x <= m {
            m
        } else {
            x
        };
        assert forall|k: usize| #[trigger] indices.contains(k) implies k <= top by {
            if k != x {
                assert(rest.contains(k));
            }
        }
        top
    }
}

proof fn lemma_order_exists(calls: PendingCalls) -> (indices: Seq<usize>)
    requires
        calls.dom().finite(),
    ensures
        is_index_order(indices, calls),
        indices.len() == calls.len(),
    decreases calls.len(),
{
    if calls.len() == 0 {
        let indices = Seq::<usize>::empty();
        assert forall|k: usize| #[trigger] calls.contains_key(k) implies indices.contains(k) by {
            assert(calls.dom().contains(k));
        }
        indices
    } else {
        let m = lemma_greatest(calls.dom());
        let rest = calls.remove(m);
        let before = lemma_order_exists(rest);
        let indices = before.push(m);
        assert forall|i: int, j: int| 0 <= i < j < indices.len() implies #[trigger] indices[i]
            < #[trigger] indices[j] by {
            assert(rest.contains_key(before[i]));
            assert(calls.dom().contains(before[i]));
        }
        assert forall|i: int| 0 <= i < indices.len() implies calls.contains_key(
            #[trigger] indices[i],
        ) by {
            if i < before.len() {
                assert(rest.contains_key(before[i]));
            }
        }
        assert forall|k: usize| #[trigger] calls.contains_key(k) implies indices.contains(k) by {
            if k == m {
                assert(indices[before.len() as int] == k);
            } else {
                assert(rest.contains_key(k));
                let i = before.index_of(k);
                assert(indices[i] == k);
            }
        }
        indices
    }
}

/// Each call has its place in the order.
pub proof fn lemma_order_len(calls: PendingCalls)
    requires
        calls.dom().finite(),
    ensures
        in_order(calls).len() == calls.len(),
{
    let indices = lemma_order_exists(calls);
    lemma_one_order(indices, choose|indices: Seq<usize>| is_index_order(indices, calls), calls);
}

/// The calls in the order of their indices.
pub(crate) fn list_in_order(calls: &BTreeMap<usize, PendingToolCall>) -> (r: Vec<PendingToolCall>)
    ensures
        r.deep_view() == in_order(calls_of(calls@)),
{
    let mut out: Vec<PendingToolCall> = Vec::new();
    let items = calls.iter();
    let ghost pairs = vstd::std_specs::iter::IteratorSpec::remaining(&items);
    let ghost indices = pairs.map_values(|kv: (&usize, &PendingToolCall)| *kv.0);
    assert(vstd::std_specs::btree::increasing_seq(indices));
    for kv in it: items
        invariant
            it.seq() == pairs,
            out@.len() == it.index(),
            forall|i: int|
                0 <= i < out@.len() ==> (#[trigger] out@[i]).deep_view()
                    == pairs[i].1.deep_view(),
    {
        out.push(kv.1.copy());
    }
    proof {
        let all = calls_of(calls@);
        assert(is_index_order(indices, all)) by {
            assert forall|i: int, j: int| 0 <= i < j < indices.len() implies #[trigger] indices[i]
                < #[trigger] indices[j] by {
                assert(vstd::std_specs::cmp::OrdSpec::cmp_spec(&indices[i], &indices[j]) is Less);
            }
            assert forall|i: int| 0 <= i < indices.len() implies all.contains_key(
                #[trigger] indices[i],
            ) by {
                assert(calls@.contains_key(*pairs[i].0));
            }
            assert forall|k: usize| #[trigger] all.contains_key(k) implies indices.contains(k) by {
                assert(calls@.contains_key(k));
                let i = pairs.index_of((&k, &calls@[k]));
                assert(indices[i] == k);
            }
        }
        lemma_one_order(indices, choose|indices: Seq<usize>| is_index_order(indices, all), all);
        assert(out.deep_view() =~= in_order(all)) by {
            assert forall|i: int| 0 <= i < out@.len() implies out.deep_view()[i] == in_order(
                all,
            )[i] by {
                assert(calls@[*pairs[i].0] == *pairs[i].1);
            }
        }
    }
    out
}

// ---- Laws ------------------------------------------------------------------

/// It makes no difference in what batches the pieces come.
pub proof fn law_batches_do_not_matter(
    calls: PendingCalls,
    first: Seq<ToolCallDeltaView>,
    second: Seq<ToolCallDeltaView>,
)
    ensures
        absorbed(absorbed(calls, first), second) == absorbed(calls, first + second),
    decreases second.len(),
{
    if second.len() == 0 {
        assert(first + second =~= first);
    } else {
        assert((first + second).drop_last() =~= first + second.drop_last());
        assert((first + second).last() == second.last());
        law_batches_do_not_matter(calls, first, second.drop_last());
    }
}

/// The bits of the arguments that the pieces bring for the call at `index`,
/// one after the other.
pub open spec fn fragments(deltas: Seq<ToolCallDeltaView>, index: usize) -> Seq<char>
    decreases deltas.len(),
{
    if deltas.len() == 0 {
        Seq::empty()
    } else if deltas.last().index == index {
        fragments(deltas.drop_last(), index) + fragment_in(deltas.last())
    } else {
        fragments(deltas.drop_last(), index)
    }
}

/// The arguments of a call are the bits that came for it, in order.
pub proof fn law_arguments_are_joined(
    calls: PendingCalls,
    deltas: Seq<ToolCallDeltaView>,
    index: usize,
)
    ensures
        call_at(absorbed(calls, deltas), index).arguments == call_at(calls, index).arguments
            + fragments(deltas, index),
    decreases deltas.len(),
{
    if deltas.len() == 0 {
        assert(call_at(calls, index).arguments + Seq::empty() =~= call_at(
            calls,
            index,
        ).arguments);
    } else {
        law_arguments_are_joined(calls, deltas.drop_last(), index);
        assert(call_at(absorbed(calls, deltas), index).arguments =~= call_at(
            calls,
            index,
        ).arguments + fragments(deltas, index));
    }
}

/// A piece changes no call but the one it is for.
pub proof fn law_other_calls_stay(
    calls: PendingCalls,
    deltas: Seq<ToolCallDeltaView>,
    index: usize,
)
    requires
        forall|i: int| 0 <= i < deltas.len() ==> (#[trigger] deltas[i]).index != index,
    ensures
        absorbed(calls, deltas).contains_key(index) == calls.contains_key(index),
        call_at(absorbed(calls, deltas), index) == call_at(calls, index),
    decreases deltas.len(),
{
    if deltas.len() > 0 {
        assert(deltas[deltas.len() - 1].index != index);
        assert forall|i: int| 0 <= i < deltas.drop_last().len() implies (
            #[trigger] deltas.drop_last()[i]).index != index by {
            assert(deltas[i].index != index);
        }
        law_other_calls_stay(calls, deltas.drop_last(), index);
    }
}

/// Pieces for different calls may come in either order.
pub proof fn law_calls_interleave(
    calls: PendingCalls,
    a: ToolCallDeltaView,
    b: ToolCallDeltaView,
)
    requires
        a.index != b.index,
    ensures
        absorbed(calls, seq![a, b]) == absorbed(calls, seq![b, a]),
{
    reveal_with_fuel(absorbed, 3);
    assert(seq![a, b].drop_last().drop_last() =~= Seq::empty());
    assert(seq![b, a].drop_last().drop_last() =~= Seq::empty());
    assert(seq![a, b].drop_last().last() == a);
    assert(seq![b, a].drop_last().last() == b);
    assert(absorbed(calls, seq![a, b]) =~= absorbed(calls, seq![b, a]));
}

/// An id and a name, once they are known, stay until others come that are not
/// empty: a piece without them only extends the arguments.
pub proof fn law_id_and_name_stay(call: PendingCallView, d: ToolCallDeltaView)
    requires
        d.id matches Some(id) ==> id.len() == 0,
        name_in(d) matches Some(name) ==> name.len() == 0,
    ensures
        merged(call, d).id == call.id,
        merged(call, d).name == call.name,
{
}

/// What a piece does to a call, by the fields of the piece: its arguments are
/// put behind those of the call, character for character, and its id and name
/// take the place of the call's where they say something. What a piece does
/// not have stays as it is.
pub proof fn law_piece_is_added(call: PendingCallView, d: ToolCallDeltaView)
    ensures
        merged(call, d).arguments == (match d.function {
            Some(FunctionDeltaView { name: _, arguments: Some(a) }) => call.arguments + a,
            _ => call.arguments,
        }),
        merged(call, d).name == (match d.function {
            Some(FunctionDeltaView { name: Some(n), arguments: _ }) => if n.len() > 0 {
                n
            } else {
                call.name
            },
            _ => call.name,
        }),
        merged(call, d).id == (match d.id {
            Some(id) => if id.len() > 0 {
                id
            } else {
                call.id
            },
            None => call.id,
        }),
{
    assert(merged(call, d).arguments =~= (match d.function {
        Some(FunctionDeltaView { name: _, arguments: Some(a) }) => call.arguments + a,
        _ => call.arguments,
    }));
}

/// The arguments in the pieces for the call at `index`, one after the other.
pub open spec fn arguments_brought(deltas: Seq<ToolCallDeltaView>, index: usize) -> Seq<char>
    decreases deltas.len(),
{
    if deltas.len() == 0 {
        Seq::empty()
    } else {
        let before = arguments_brought(deltas.drop_last(), index);
        match deltas.last() {
            ToolCallDeltaView {
                index: i,
                id: _,
                function: Some(FunctionDeltaView { name: _, arguments: Some(a) }),
            } => if i == index {
                before + a
            } else {
                before
            },
            _ => before,
        }
    }
}

/// The last id in the pieces for the call at `index` that says something, or
/// else `id`.
pub open spec fn id_brought(deltas: Seq<ToolCallDeltaView>, index: usize, id: Seq<char>) -> Seq<
    char,
>
    decreases deltas.len(),
{
    if deltas.len() == 0 {
        id
    } else {
        let before = id_brought(deltas.drop_last(), index, id);
        match deltas.last().id {
            Some(t) => if deltas.last().index == index && t.len() > 0 {
                t
            } else {
                before
            },
            None => before,
        }
    }
}

/// The last name in the pieces for the call at `index` that says something, or
/// else `name`.
pub open spec fn name_brought(deltas: Seq<ToolCallDeltaView>, index: usize, name: Seq<char>) -> Seq<
    char,
>
    decreases deltas.len(),
{
    if deltas.len() == 0 {
        name
    } else {
        let before = name_brought(deltas.drop_last(), index, name);
        match deltas.last().function {
            Some(FunctionDeltaView { name: Some(t), arguments: _ }) => if deltas.last().index
                == index && t.len() > 0 {
                t
            } else {
                before
            },
            _ => before,
        }
    }
}

/// One of the pieces is for the call at `index`.
pub open spec fn has_piece(deltas: Seq<ToolCallDeltaView>, index: usize) -> bool {
    exists|i: int| 0 <= i < deltas.len() && (#[trigger] deltas[i]).index == index
}

/// A call is in flight once a piece has come for it. Its arguments are all the
/// arguments in its pieces, one after the other and character for character;
/// its id and name are the last ones that said something.
pub proof fn law_call_is_assembled(
    calls: PendingCalls,
    deltas: Seq<ToolCallDeltaView>,
    index: usize,
)
    ensures
        absorbed(calls, deltas).contains_key(index) <==> calls.contains_key(index) || has_piece(
            deltas,
            index,
        ),
        absorbed(calls, deltas).contains_key(index) ==> absorbed(calls, deltas)[index] == (
        if calls.contains_key(index) {
            PendingCallView {
                id: id_brought(deltas, index, calls[index].id),
                name: name_brought(deltas, index, calls[index].name),
                arguments: calls[index].arguments + arguments_brought(deltas, index),
            }
        } else {
            PendingCallView {
                id: id_brought(deltas, index, Seq::empty()),
                name: name_brought(deltas, index, Seq::empty()),
                arguments: arguments_brought(deltas, index),
            }
        }),
    decreases deltas.len(),
{
    if deltas.len() == 0 {
        if calls.contains_key(index) {
            assert(calls[index].arguments + arguments_brought(deltas, index)
                =~= calls[index].arguments);
        }
    } else {
        let shorter = deltas.drop_last();
        let last = deltas.last();
        let n = deltas.len() - 1;
        let before = absorbed(calls, shorter);
        law_call_is_assembled(calls, shorter, index);
        law_piece_is_added(call_at(before, last.index), last);
        assert(has_piece(deltas, index) <==> has_piece(shorter, index) || last.index == index) by {
            if has_piece(deltas, index) && last.index != index {
                let i = choose|i: int| 0 <= i < deltas.len() && (#[trigger] deltas[i]).index
                    == index;
                assert(shorter[i].index == index);
            }
            if has_piece(shorter, index) {
                let i = choose|i: int| 0 <= i < shorter.len() && (#[trigger] shorter[i]).index
                    == index;
                assert(deltas[i].index == index);
            }
            if last.index == index {
                assert(deltas[n].index == index);
            }
        }
        if last.index == index && !before.contains_key(index) {
            lemma_nothing_brought(shorter, index);
        }
        if absorbed(calls, deltas).contains_key(index) {
            if calls.contains_key(index) {
                assert(absorbed(calls, deltas)[index].arguments =~= calls[index].arguments
                    + arguments_brought(deltas, index));
            } else {
                assert(absorbed(calls, deltas)[index].arguments =~= arguments_brought(
                    deltas,
                    index,
                ));
            }
        }
    }
}

proof fn lemma_nothing_brought(deltas: Seq<ToolCallDeltaView>, index: usize)
    requires
        !has_piece(deltas, index),
    ensures
        arguments_brought(deltas, index).len() == 0,
        id_brought(deltas, index, Seq::empty()).len() == 0,
        name_brought(deltas, index, Seq::empty()).len() == 0,
    decreases deltas.len(),
{
    if deltas.len() > 0 {
        let shorter = deltas.drop_last();
        let n = deltas.len() - 1;
        assert(deltas[n].index != index);
        assert(!has_piece(shorter, index)) by {
            if has_piece(shorter, index) {
                let i = choose|i: int| 0 <= i < shorter.len() && (#[trigger] shorter[i]).index
                    == index;
                assert(deltas[i].index == index);
            }
        }
        lemma_nothing_brought(shorter, index);
    }
}

/// The calls are taken in the order of their indices, each once: the calls of
/// `indices`, where those are the indices in use in increasing order.
pub proof fn law_calls_come_in_order(calls: PendingCalls, indices: Seq<usize>)
    requires
        forall|i: int, j: int|
            0 <= i < j < indices.len() ==> #[trigger] indices[i] < #[trigger] indices[j],
        forall|k: usize| indices.contains(k) <==> #[trigger] calls.contains_key(k),
    ensures
        in_order(calls).len() == indices.len(),
        forall|i: int|
            0 <= i < indices.len() ==> #[trigger] in_order(calls)[i] == calls[indices[i]],
{
    assert forall|i: int| 0 <= i < indices.len() implies calls.contains_key(
        #[trigger] indices[i],
    ) by {
        assert(indices.contains(indices[i]));
    }
    assert(is_index_order(indices, calls));
    lemma_one_order(indices, choose|indices: Seq<usize>| is_index_order(indices, calls), calls);
}

/// The views of calls in flight leave nothing out and change nothing: each part is that
/// of the value itself.
pub proof fn law_views_of_calls(
    pending_tool_call: PendingToolCall,
    calls: Map<usize, PendingToolCall>,
    index: usize,
)
    ensures
        pending_tool_call.deep_view().id == pending_tool_call.id@,
        pending_tool_call.deep_view().name == pending_tool_call.name@,
        pending_tool_call.deep_view().arguments == pending_tool_call.arguments@,
        calls_of(calls).contains_key(index) <==> calls.contains_key(index),
        calls.contains_key(index) ==> calls_of(calls)[index] == calls[index].deep_view(),
{
}

} // verus!
