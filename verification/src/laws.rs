//! What holds of every evaluation: laws of the machine, each proved from
//! the definitions in [`crate::machine`].

use vstd::prelude::*;
use crate::machine::{
    builtin_of,
    is_number_kind,
    lemma_resume_keeps_wf,
    lemma_step_keeps_wf,
    Builtin,
    EventModel,
    FocusModel,
    FrameModel,
    Machine,
    RequestModel,
    Store,
};
use crate::parser::{parse_expression, Node, Parsed, Value};
use crate::types::{Punctuations, TokenModel, Tokens};

verus! {

/// Whether no `define` is called anywhere in an expression.
pub open spec fn define_free(node: Node) -> bool
    decreases node,
{
    match node {
        Node::Literal { .. } => true,
        Node::Call { function, arguments } => {
            &&& builtin_of(function) != Some(Builtin::Define)
            &&& forall|i: int|
                0 <= i < arguments.len() ==> define_free(#[trigger] arguments[i])
        },
    }
}

/// Whether a call that is under way is no `define` and has no `define` in
/// its arguments.
pub open spec fn frame_define_free(frame: FrameModel) -> bool {
    &&& frame.form != Builtin::Define
    &&& forall|i: int|
        0 <= i < frame.arguments.len() ==> define_free(#[trigger] frame.arguments[i])
}

/// Whether nothing that the machine is evaluating calls `define`.
pub open spec fn evaluates_define_free(machine: Machine) -> bool {
    &&& forall|i: int|
        0 <= i < machine.store.stack.len() ==> frame_define_free(#[trigger] machine.store.stack[i])
    &&& (machine.focus matches FocusModel::Eval(node) ==> define_free(node))
}

/// The machine that is about to evaluate one expression, with the given
/// variables.
pub open spec fn evaluating(variables: Map<Seq<char>, Value>, node: Node) -> Machine {
    Machine {
        store: Store { variables, program: seq![node], cursor: 0, stack: Seq::empty() },
        focus: FocusModel::Eval(node),
    }
}

/// Whether the machine has the result of the expression that it was
/// evaluating above `base` calls, or has given up, or evaluates nothing.
pub open spec fn settled(machine: Machine, base: nat) -> bool {
    match machine.focus {
        FocusModel::Return(_) => machine.store.stack.len() <= base,
        FocusModel::Eval(_) => false,
        FocusModel::Await(_) => false,
        _ => true,
    }
}

/// One move of a machine at a moment. `host` says what the host answers to
/// a request at a moment; it may go by the request, by the moment, or by
/// both.
pub open spec fn advance(
    machine: Machine,
    host: spec_fn(nat, RequestModel) -> EventModel,
    moment: nat,
) -> Machine {
    match machine.focus {
        FocusModel::Await(request) => machine.resume(host(moment, request)),
        _ => machine.step(),
    }
}

/// The machine after it has moved, from a moment on, until it is settled
/// above `base` calls, but `fuel` moves at most.
pub open spec fn evaluate(
    machine: Machine,
    host: spec_fn(nat, RequestModel) -> EventModel,
    base: nat,
    moment: nat,
    fuel: nat,
) -> Machine
    decreases fuel,
{
    if fuel == 0 || settled(machine, base) {
        machine
    } else {
        evaluate(advance(machine, host, moment), host, base, moment + 1, (fuel - 1) as nat)
    }
}

/// A move of a machine that evaluates nothing with a `define` in it leaves
/// the variables as they are, and the machine such a machine.
pub proof fn lemma_advance_keeps_variables(machine: Machine, event: EventModel)
    requires
        machine.wf(),
        evaluates_define_free(machine),
        !(machine.focus is Next),
    ensures
        machine.focus is Await ==> {
            &&& machine.resume(event).wf()
            &&& machine.resume(event).store.variables == machine.store.variables
            &&& evaluates_define_free(machine.resume(event))
        },
        !(machine.focus is Await) ==> {
            &&& machine.step().wf()
            &&& machine.step().store.variables == machine.store.variables
            &&& evaluates_define_free(machine.step())
        },
{
    let next = if machine.focus is Await {
        machine.resume(event)
    } else {
        machine.step()
    };
    let before = machine.store.stack;
    let after = next.store.stack;
    lemma_resume_keeps_wf(machine, event);
    lemma_step_keeps_wf(machine);
    assert forall|i: int| 0 <= i < after.len() implies frame_define_free(#[trigger] after[i]) by {
        if i < before.len() {
            assert(frame_define_free(before[i]));
        }
    }
    if before.len() > 0 {
        assert(frame_define_free(before.last()));
    }
}

/// Only `define` changes the variables: however far a machine moves that
/// evaluates nothing with a `define` in it, and whatever its host answers,
/// the variables stay as they were.
pub proof fn law_only_define_changes_variables(
    machine: Machine,
    host: spec_fn(nat, RequestModel) -> EventModel,
    base: nat,
    moment: nat,
    fuel: nat,
)
    requires
        machine.wf(),
        evaluates_define_free(machine),
    ensures
        evaluate(machine, host, base, moment, fuel).wf(),
        evaluate(machine, host, base, moment, fuel).store.variables == machine.store.variables,
        evaluates_define_free(evaluate(machine, host, base, moment, fuel)),
    decreases fuel,
{
    if fuel != 0 && !settled(machine, base) {
        match machine.focus {
            FocusModel::Await(request) => {
                lemma_advance_keeps_variables(machine, host(moment, request));
            },
            _ => {
                lemma_advance_keeps_variables(machine, EventModel::Printed);
            },
        }
        law_only_define_changes_variables(
            advance(machine, host, moment),
            host,
            base,
            moment + 1,
            (fuel - 1) as nat,
        );
    }
}

/// Evaluating an expression without `define` a second time, with the
/// variables that the first evaluation left and a host that answers as it
/// did the first time, ends as the first evaluation ended: with the same
/// result, of the same text, and the same variables.
pub proof fn law_evaluating_twice_gives_the_same(
    variables: Map<Seq<char>, Value>,
    node: Node,
    host: spec_fn(nat, RequestModel) -> EventModel,
    fuel: nat,
)
    requires
        define_free(node),
    ensures
        evaluate(evaluating(variables, node), host, 0, 0, fuel).store.variables == variables,
        evaluate(
            evaluating(
                evaluate(evaluating(variables, node), host, 0, 0, fuel).store.variables,
                node,
            ),
            host,
            0,
            0,
            fuel,
        ) == evaluate(evaluating(variables, node), host, 0, 0, fuel),
{
    law_only_define_changes_variables(evaluating(variables, node), host, 0, 0, fuel);
}

/// The machine with further calls under way, below those that it has.
pub open spec fn within(outer: Seq<FrameModel>, machine: Machine) -> Machine {
    Machine {
        store: Store { stack: outer + machine.store.stack, ..machine.store },
        focus: machine.focus,
    }
}

/// A move does not look below the expression that is being evaluated: with
/// further calls under way below, the machine makes the same move.
pub proof fn lemma_advance_within(
    outer: Seq<FrameModel>,
    machine: Machine,
    host: spec_fn(nat, RequestModel) -> EventModel,
    moment: nat,
)
    requires
        machine.wf(),
        !settled(machine, 0),
    ensures
        advance(within(outer, machine), host, moment) == within(
            outer,
            advance(machine, host, moment),
        ),
{
    let inner = machine.store.stack;
    let low = within(outer, machine);
    let moved = advance(machine, host, moment);
    let expected = within(outer, moved);
    let found = advance(low, host, moment);
    assert(low.store.stack.len() == outer.len() + inner.len());
    if inner.len() > 0 {
        assert(low.store.stack.last() == inner.last());
        assert(low.store.stack.drop_last() =~= outer + inner.drop_last());
        assert forall|frame: FrameModel| #[trigger]
            low.store.stack.drop_last().push(frame) =~= outer + inner.drop_last().push(frame) by {}
    }
    assert forall|frame: FrameModel| #[trigger]
        low.store.stack.push(frame) =~= outer + inner.push(frame) by {}
    assert forall|frame: FrameModel| #[trigger]
        low.store.stack.push(frame).drop_last() =~= outer + inner.push(frame).drop_last() by {}
    assert forall|frame: FrameModel, other: FrameModel| #[trigger]
        low.store.stack.push(frame).drop_last().push(other) =~= outer + inner.push(
            frame,
        ).drop_last().push(other) by {}
    assert(found.store.stack =~= expected.store.stack);
    assert(found.focus == expected.focus);
    assert(found.store.variables == expected.store.variables);
}

/// An expression evaluates alike wherever it stands: with further calls
/// under way below it, and a host that answers alike, the machine goes
/// through the same moves, asks the same of its host, and ends with the
/// same result and the same variables, those calls untouched.
pub proof fn law_evaluation_is_the_same_in_any_call(
    outer: Seq<FrameModel>,
    machine: Machine,
    host: spec_fn(nat, RequestModel) -> EventModel,
    moment: nat,
    fuel: nat,
)
    requires
        machine.wf(),
    ensures
        evaluate(within(outer, machine), host, outer.len(), moment, fuel) == within(
            outer,
            evaluate(machine, host, 0, moment, fuel),
        ),
    decreases fuel,
{
    assert(settled(within(outer, machine), outer.len()) == settled(machine, 0));
    if fuel != 0 && !settled(machine, 0) {
        lemma_advance_within(outer, machine, host, moment);
        match machine.focus {
            FocusModel::Await(request) => {
                lemma_resume_keeps_wf(machine, host(moment, request));
            },
            _ => {
                lemma_step_keeps_wf(machine);
            },
        }
        law_evaluation_is_the_same_in_any_call(
            outer,
            advance(machine, host, moment),
            host,
            moment + 1,
            (fuel - 1) as nat,
        );
    }
}

/// A machine that is done or has given up stays as it is, whatever it is
/// given.
pub proof fn law_done_and_failed_are_final(machine: Machine, event: EventModel, limit: nat)
    requires
        machine.focus is Done || machine.focus is Failed,
    ensures
        machine.step() == machine,
        machine.resume(event) == machine,
        machine.run(limit) == machine,
{
}

/// A machine that waits for its host does not move until it is resumed.
pub proof fn law_waiting_machine_waits(machine: Machine, limit: nat)
    requires
        machine.focus is Await,
    ensures
        machine.step() == machine,
        machine.run(limit) == machine,
{
}

/// Calls nest: a move changes the number of calls under way by one at
/// most, and leaves every call but the innermost as it was.
pub proof fn law_moves_touch_the_innermost_call_only(machine: Machine, event: EventModel)
    requires
        machine.wf(),
    ensures
        machine.store.stack.len() - 1 <= machine.step().store.stack.len()
            <= machine.store.stack.len() + 1,
        machine.store.stack.len() - 1 <= machine.resume(event).store.stack.len()
            <= machine.store.stack.len() + 1,
        forall|i: int|
            0 <= i < machine.store.stack.len() - 1 ==> #[trigger] machine.step().store.stack[i]
                == machine.store.stack[i],
        forall|i: int|
            0 <= i < machine.store.stack.len() - 1 ==> #[trigger] machine.resume(
                event,
            ).store.stack[i] == machine.store.stack[i],
        machine.step().store.program == machine.store.program,
        machine.resume(event).store.program == machine.store.program,
{
}

/// `define` overwrites: once it has its value, the name is bound to that
/// value and to no other, every other name is bound as before, and an
/// expression that is the name evaluates to the value.
pub proof fn law_define_overwrites(store: Store, bound: Value, mention: Value)
    requires
        store.stack.len() > 0,
        store.top().form is Define,
        store.top().arguments[0] is Literal,
        mention.text == store.top().arguments[0]->value.text,
    ensures
        store.define(Some(bound)).store.variables == store.variables.insert(mention.text, bound),
        store.define(Some(bound)).store.variables[mention.text] == bound,
        forall|other: Seq<char>|
            other != mention.text ==> (#[trigger] store.define(
                Some(bound),
            ).store.variables.contains_key(other) == store.variables.contains_key(other)
                && store.define(Some(bound)).store.variables[other] == store.variables[other]),
        store.define(Some(bound)).store.eval(Node::Literal { value: mention }).focus
            == FocusModel::Return(Some(bound)),
{
}

/// `=` across kinds: where the two values are not both numbers and not both
/// strings, they are unequal whatever their texts, and the host is not
/// asked.
pub proof fn law_equality_needs_matching_kinds(store: Store, left: Value, right: Value)
    requires
        !(is_number_kind(left.kind) && is_number_kind(right.kind)),
        !(left.kind is String && right.kind is String),
    ensures
        store.operator_eq(left, right, false) == store.leave(Some(Value::truth(false))),
        store.operator_ne(left, right) == store.leave(Some(Value::truth(true))),
{
}

/// `!=` is the opposite of `=`: where `=` gives a value without asking the
/// host, `!=` gives the other one; where `=` asks the host, `!=` asks the
/// same, and takes the opposite of the answer.
pub proof fn law_unequal_is_not_equal(store: Store, left: Value, right: Value, holds: bool)
    ensures
        store.operator_eq(left, right, false).focus is Await <==> store.operator_ne(
            left,
            right,
        ).focus is Await,
        store.operator_eq(left, right, false).focus is Await ==> store.operator_eq(
            left,
            right,
            false,
        ) == store.operator_ne(left, right),
        store.operator_eq(left, right, false) == store.leave(Some(Value::truth(holds)))
            ==> store.operator_ne(left, right) == store.leave(Some(Value::truth(!holds))),
{
    lemma_truths_differ();
}

/// The two values of a condition are different values.
pub proof fn lemma_truths_differ()
    ensures
        Value::truth(true) != Value::truth(false),
        Value::truth(true).is_true(),
        !Value::truth(false).is_true(),
{
    reveal_strlit("1");
    reveal_strlit("0");
    assert("1"@.len() == 1 && "0"@.len() == 1);
    assert("1"@[0] == '1');
    assert("0"@[0] == '0');
}

/// A closing parenthesis that closes nothing is an expression of its own,
/// and evaluating it gives nothing and asks nothing.
pub proof fn law_stray_parenthesis_is_harmless(
    tokens: Seq<TokenModel>,
    position: int,
    store: Store,
)
    requires
        0 <= position < tokens.len(),
        tokens[position].token == Tokens::Punctuation(Punctuations::RParen),
    ensures
        parse_expression(tokens, position) == (Parsed::Done {
            node: Node::noop(),
            next: position + 1,
        }),
        store.eval(Node::noop()) == store.give(None),
{
    lemma_nameless_call();
}

/// The name without characters calls the form that does nothing.
pub proof fn lemma_nameless_call()
    ensures
        builtin_of(Seq::empty()) == Some(Builtin::Nothing),
{
    let name = Seq::<char>::empty();
    reveal_strlit("display");
    reveal_strlit("begin");
    reveal_strlit("newline");
    reveal_strlit("define");
    reveal_strlit("read");
    reveal_strlit("read-line");
    reveal_strlit("while");
    reveal_strlit("if");
    reveal_strlit("true");
    reveal_strlit("#t");
    reveal_strlit("false");
    reveal_strlit("#f");
    reveal_strlit("+");
    reveal_strlit("*");
    reveal_strlit("-");
    reveal_strlit("/");
    reveal_strlit("<");
    reveal_strlit("<=");
    reveal_strlit(">");
    reveal_strlit(">=");
    reveal_strlit("=");
    reveal_strlit("!=");
    reveal_strlit("%");
    reveal_strlit("");
    assert(name =~= ""@);
}

} // verus!
