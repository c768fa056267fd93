//! The evaluator as a transition system.
//!
//! A [`Machine`] is the evaluator's whole state as contracts speak of it:
//! the variable table, the program and the place in it, the calls that are
//! under way, and what the machine is about to do. [`Machine::step`] and
//! [`Machine::resume`] say how it moves. Input, output and arithmetic on
//! numbers are not done here: the machine stops with a [`RequestModel`] and
//! goes on when it is given the [`EventModel`] that answers it.

use vstd::prelude::*;
use crate::display::{chomp, has_point, number_text, render, strip};
use crate::parser::{Node, Value};
use crate::types::{Operators, Types};

verus! {

/// The forms that the evaluator knows. There are no others.
#[derive(Debug, Clone, Copy, PartialEq, Eq, Structural)]
pub enum Builtin {
    Define,
    Display,
    Newline,
    Read,
    ReadLine,
    Begin,
    If,
    While,
    True,
    False,
    /// The call without a name, which does nothing.
    Nothing,
    Operator(Operators),
}

/// Why an evaluation was given up.
#[derive(Debug, Clone, Copy, PartialEq, Eq, Structural)]
pub enum EvalError {
    /// The name of a call is that of no form.
    UnknownFunction,
    /// A call has fewer arguments than its form needs.
    MissingArgument,
    /// The first argument of `define` is a call, not a name.
    InvalidName,
    /// An argument that must give a value gave none.
    NotALiteral,
    /// An operand of an operator is no number.
    NotNumeric,
    DivisionByZero,
    /// The line that `read` was given is no number.
    NonNumericInput,
    /// The machine was given an event that answers no request of its.
    UnexpectedEvent,
}

/// What the machine asks of its host, as contracts speak of it.
pub enum RequestModel {
    /// Write the text to the output, and flush.
    Print(Seq<char>),
    /// Read one line from the input.
    ReadLine,
    /// Read the text as a number and give the number's text.
    Number(Seq<char>),
    /// Give the text of `left operator right`, both read as numbers.
    Arithmetic { operator: Operators, left: Seq<char>, right: Seq<char> },
    /// Say whether `left operator right` holds, both read as numbers.
    Compare { operator: Operators, left: Seq<char>, right: Seq<char> },
}

/// What the host answers, as contracts speak of it.
pub enum EventModel {
    /// The text was written.
    Printed,
    /// The line that was read, with its line break if it had one.
    Line(Seq<char>),
    /// The text of the number that was asked for.
    Number(Seq<char>),
    /// Whether the comparison holds.
    Truth(bool),
    /// A text that was to be read as a number is none.
    NotNumeric,
}

/// What a transition leaves the host to do, as contracts speak of it.
pub enum ActionModel {
    /// Nothing: the machine can be stepped again.
    Continue,
    /// Answer the request, then resume the machine.
    Ask(RequestModel),
    /// Nothing: the program has run to its end.
    Finished,
    /// Nothing: the evaluation was given up.
    Failed(EvalError),
}

/// A call that is under way.
pub struct FrameModel {
    pub form: Builtin,
    pub arguments: Seq<Node>,
    /// The index of the argument that is being evaluated.
    pub index: int,
    /// What the call has gathered so far: the text to display, the running
    /// result of an operator, or a left operand.
    pub held: Option<Value>,
}

/// What the machine is about to do.
pub enum FocusModel {
    /// Take the next expression of the program.
    Next,
    /// Evaluate this expression.
    Eval(Node),
    /// Hand this result to the innermost call that is under way.
    Return(Option<Value>),
    /// Wait for the answer to this request.
    Await(RequestModel),
    Done,
    Failed(EvalError),
}

/// All of the machine but its focus.
pub struct Store {
    pub variables: Map<Seq<char>, Value>,
    pub program: Seq<Node>,
    /// The index of the expression of the program that is being evaluated.
    pub cursor: int,
    /// The calls that are under way, the innermost last.
    pub stack: Seq<FrameModel>,
}

/// The evaluator's whole state.
pub struct Machine {
    pub store: Store,
    pub focus: FocusModel,
}

/// The form that a name calls.
pub open spec fn builtin_of(name: Seq<char>) -> Option<Builtin> {
    if name == "display"@ {
        Some(Builtin::Display)
    } else if name == "begin"@ {
        Some(Builtin::Begin)
    } else if name == "newline"@ {
        Some(Builtin::Newline)
    } else if name == "define"@ {
        Some(Builtin::Define)
    } else if name == "read"@ {
        Some(Builtin::Read)
    } else if name == "read-line"@ {
        Some(Builtin::ReadLine)
    } else if name == "while"@ {
        Some(Builtin::While)
    } else if name == "if"@ {
        Some(Builtin::If)
    } else if name == "true"@ || name == "#t"@ {
        Some(Builtin::True)
    } else if name == "false"@ || name == "#f"@ {
        Some(Builtin::False)
    } else if name == "+"@ {
        Some(Builtin::Operator(Operators::Plus))
    } else if name == "*"@ {
        Some(Builtin::Operator(Operators::Asterisk))
    } else if name == "-"@ {
        Some(Builtin::Operator(Operators::Minus))
    } else if name == "/"@ {
        Some(Builtin::Operator(Operators::Slash))
    } else if name == "<"@ {
        Some(Builtin::Operator(Operators::Lt))
    } else if name == "<="@ {
        Some(Builtin::Operator(Operators::Le))
    } else if name == ">"@ {
        Some(Builtin::Operator(Operators::Gt))
    } else if name == ">="@ {
        Some(Builtin::Operator(Operators::Ge))
    } else if name == "="@ {
        Some(Builtin::Operator(Operators::Eq))
    } else if name == "!="@ {
        Some(Builtin::Operator(Operators::Ne))
    } else if name == "%"@ {
        Some(Builtin::Operator(Operators::Percent))
    } else if name == ""@ {
        Some(Builtin::Nothing)
    } else {
        None
    }
}

/// Whether values of this kind are numbers.
pub open spec fn is_number_kind(kind: Types) -> bool {
    kind is Int || kind is Float
}

impl Value {
    /// The value of a condition: the integer `1` where it holds, else `0`.
    pub open spec fn truth(holds: bool) -> Value {
        Value {
            kind: Types::Int,
            text: if holds {
                "1"@
            } else {
                "0"@
            },
        }
    }

    /// The result of arithmetic with this text.
    pub open spec fn float(text: Seq<char>) -> Value {
        Value { kind: Types::Float, text }
    }

    /// Whether a condition with this value holds.
    pub open spec fn is_true(self) -> bool {
        self.text == "1"@
    }
}

impl FrameModel {
    /// The frame of a call that has just been entered.
    pub open spec fn enter(form: Builtin, arguments: Seq<Node>, held: Option<Value>) -> FrameModel {
        FrameModel { form, arguments, index: 0, held }
    }

    /// Whether the frame can wait for the value of the argument at its
    /// index.
    pub open spec fn waits(self) -> bool {
        &&& 0 <= self.index < self.arguments.len()
        &&& match self.form {
            Builtin::Define => self.index == 1 && self.arguments[0] is Literal,
            Builtin::Display => self.held is Some,
            Builtin::Begin => true,
            Builtin::If => self.arguments.len() >= 2,
            Builtin::While => self.arguments.len() >= 2 && self.index <= 1,
            Builtin::Operator(Operators::Plus) | Builtin::Operator(Operators::Asterisk) => self.held is Some,
            Builtin::Operator(Operators::Minus) | Builtin::Operator(Operators::Slash) => self.index
                > 0 ==> self.held is Some,
            Builtin::Operator(_) => self.arguments.len() >= 2 && self.index <= 1 && (self.index == 1
                ==> self.held is Some),
            _ => false,
        }
    }

    /// Whether the frame can have made this request.
    pub open spec fn asks(self, request: RequestModel) -> bool {
        match request {
            RequestModel::Print(_) => self.form is Display || self.form is Newline,
            RequestModel::ReadLine => self.form is Read || self.form is ReadLine,
            RequestModel::Number(_) => (self.form == Builtin::Operator(Operators::Minus)
                || self.form == Builtin::Operator(Operators::Slash)) && self.index == 0
                && self.arguments.len() > 0,
            RequestModel::Arithmetic { .. } => self.form == Builtin::Operator(Operators::Percent) || (
            self.held is Some && 0 <= self.index < self.arguments.len() && (self.form
                == Builtin::Operator(Operators::Plus) || self.form == Builtin::Operator(
                Operators::Asterisk,
            ) || self.form == Builtin::Operator(Operators::Minus) || self.form
                == Builtin::Operator(Operators::Slash))),
            RequestModel::Compare { .. } => self.form == Builtin::Operator(Operators::Lt)
                || self.form == Builtin::Operator(Operators::Le) || self.form == Builtin::Operator(
                Operators::Gt,
            ) || self.form == Builtin::Operator(Operators::Ge) || self.form == Builtin::Operator(
                Operators::Eq,
            ) || self.form == Builtin::Operator(Operators::Ne) || (self.form == Builtin::Operator(
                Operators::Slash,
            ) && self.held is Some && 0 < self.index < self.arguments.len()),
        }
    }
}

impl Store {
    /// The innermost call that is under way.
    pub open spec fn top(self) -> FrameModel {
        self.stack.last()
    }

    /// The store with the innermost frame replaced.
    pub open spec fn with_top(self, frame: FrameModel) -> Store {
        Store { stack: self.stack.drop_last().push(frame), ..self }
    }

    /// The store with one more call under way.
    pub open spec fn push(self, frame: FrameModel) -> Store {
        Store { stack: self.stack.push(frame), ..self }
    }

    /// The store without the innermost call.
    pub open spec fn pop(self) -> Store {
        Store { stack: self.stack.drop_last(), ..self }
    }

    /// The store with the innermost call holding `value`.
    pub open spec fn hold(self, value: Value) -> Store {
        self.with_top(FrameModel { held: Some(value), ..self.top() })
    }

    /// The evaluation is given up.
    pub open spec fn fail(self, error: EvalError) -> Machine {
        Machine { store: self, focus: FocusModel::Failed(error) }
    }

    /// A result is on its way to the innermost call.
    pub open spec fn give(self, value: Option<Value>) -> Machine {
        Machine { store: self, focus: FocusModel::Return(value) }
    }

    /// The innermost call ends with this result.
    pub open spec fn leave(self, value: Option<Value>) -> Machine {
        self.pop().give(value)
    }

    /// The machine stops and asks its host.
    pub open spec fn ask(self, request: RequestModel) -> Machine {
        Machine { store: self, focus: FocusModel::Await(request) }
    }

    /// The innermost call turns to its argument at `index`.
    pub open spec fn visit(self, index: int) -> Machine {
        Machine {
            store: self.with_top(FrameModel { index, ..self.top() }),
            focus: FocusModel::Eval(self.top().arguments[index]),
        }
    }

    /// The innermost call, which takes its arguments one after the other,
    /// has seen them all: `display` prints what it has gathered, `begin`
    /// gives nothing, an operator gives its running result.
    pub open spec fn finish(self) -> Machine {
        match self.top().form {
            Builtin::Display => self.ask(RequestModel::Print(render(self.top().held->0.text))),
            Builtin::Begin => self.leave(None),
            _ => self.leave(self.top().held),
        }
    }

    /// The innermost call, which takes its arguments one after the other,
    /// starts on them.
    pub open spec fn begin_arguments(self) -> Machine {
        if self.top().arguments.len() > 0 {
            self.visit(0)
        } else {
            self.finish()
        }
    }

    /// The innermost call, which takes its arguments one after the other,
    /// turns to the next.
    pub open spec fn proceed(self) -> Machine {
        if self.top().index + 1 < self.top().arguments.len() {
            self.visit(self.top().index + 1)
        } else {
            self.finish()
        }
    }

    /// The machine turns to the next expression of the program, or is done.
    pub open spec fn next_expression(self) -> Machine {
        if 0 <= self.cursor < self.program.len() {
            Machine { store: self, focus: FocusModel::Eval(self.program[self.cursor]) }
        } else {
            Machine { store: self, focus: FocusModel::Done }
        }
    }

    /// A call of `form` is entered. A form with needed arguments is given
    /// up where they are missing.
    pub open spec fn enter(self, form: Builtin, arguments: Seq<Node>) -> Machine {
        match form {
            Builtin::Nothing => self.give(None),
            Builtin::True => self.give(Some(Value::truth(true))),
            Builtin::False => self.give(Some(Value::truth(false))),
            Builtin::Newline => self.push(FrameModel::enter(form, arguments, None)).ask(
                RequestModel::Print(seq!['\n']),
            ),
            Builtin::Read | Builtin::ReadLine => self.push(
                FrameModel::enter(form, arguments, None),
            ).ask(RequestModel::ReadLine),
            Builtin::Display => self.push(
                FrameModel::enter(
                    form,
                    arguments,
                    Some(Value { kind: Types::String, text: Seq::empty() }),
                ),
            ).begin_arguments(),
            Builtin::Begin => self.push(FrameModel::enter(form, arguments, None)).begin_arguments(),
            Builtin::Define => {
                if arguments.len() < 2 {
                    self.fail(EvalError::MissingArgument)
                } else if !(arguments[0] is Literal) {
                    self.fail(EvalError::InvalidName)
                } else {
                    self.push(FrameModel::enter(form, arguments, None)).visit(1)
                }
            },
            Builtin::If | Builtin::While => {
                if arguments.len() < 2 {
                    self.fail(EvalError::MissingArgument)
                } else {
                    self.push(FrameModel::enter(form, arguments, None)).visit(0)
                }
            },
            Builtin::Operator(Operators::Plus) => self.push(
                FrameModel::enter(form, arguments, Some(Value::float("0"@))),
            ).begin_arguments(),
            Builtin::Operator(Operators::Asterisk) => self.push(
                FrameModel::enter(form, arguments, Some(Value::float("1"@))),
            ).begin_arguments(),
            Builtin::Operator(Operators::Minus) | Builtin::Operator(Operators::Slash) => {
                if arguments.len() < 1 {
                    self.fail(EvalError::MissingArgument)
                } else {
                    self.push(FrameModel::enter(form, arguments, None)).visit(0)
                }
            },
            Builtin::Operator(_) => {
                if arguments.len() < 2 {
                    self.fail(EvalError::MissingArgument)
                } else {
                    self.push(FrameModel::enter(form, arguments, None)).visit(0)
                }
            },
        }
    }

    /// An expression is evaluated. A literal whose text is the name of a
    /// variable gives the variable's value, any other literal gives itself;
    /// a call is entered, and given up where its name is that of no form.
    pub open spec fn eval(self, node: Node) -> Machine {
        match node {
            Node::Literal { value } => {
                if self.variables.contains_key(value.text) {
                    self.give(Some(self.variables[value.text]))
                } else {
                    self.give(Some(value))
                }
            },
            Node::Call { function, arguments } => match builtin_of(function) {
                Some(form) => self.enter(form, arguments),
                None => self.fail(EvalError::UnknownFunction),
            },
        }
    }

    /// `define` has the value of its second argument: it binds the name
    /// that is its first argument to it, and gives nothing.
    pub open spec fn define(self, value: Option<Value>) -> Machine {
        match value {
            Some(bound) => Store {
                variables: self.variables.insert(self.top().arguments[0]->value.text, bound),
                ..self
            }.leave(None),
            None => self.fail(EvalError::NotALiteral),
        }
    }

    /// `display` has the value of an argument: it adds the value's text,
    /// without one line feed at its end, to what it has gathered.
    pub open spec fn display(self, value: Option<Value>) -> Machine {
        match value {
            Some(shown) => self.hold(
                Value { kind: Types::String, text: self.top().held->0.text + chomp(shown.text) },
            ).proceed(),
            None => self.fail(EvalError::NotALiteral),
        }
    }

    /// `begin` has the value of an argument, and drops it.
    pub open spec fn begin(self, value: Option<Value>) -> Machine {
        self.proceed()
    }

    /// `if` has the value of its condition, and turns to the branch that
    /// the condition selects, or gives nothing where there is no such
    /// branch; or it has the value of that branch, and gives it.
    pub open spec fn if_statement(self, value: Option<Value>) -> Machine {
        if self.top().index == 0 {
            match value {
                Some(condition) => {
                    if condition.is_true() {
                        self.visit(1)
                    } else if self.top().arguments.len() == 2 {
                        self.leave(None)
                    } else {
                        self.visit(2)
                    }
                },
                None => self.fail(EvalError::NotALiteral),
            }
        } else {
            self.leave(value)
        }
    }

    /// `while` has the value of its condition, and turns to its body where
    /// the condition holds and gives nothing where it does not; or it has
    /// the value of its body, drops it and turns to the condition again.
    pub open spec fn while_statement(self, value: Option<Value>) -> Machine {
        if self.top().index == 0 {
            match value {
                Some(condition) => {
                    if condition.is_true() {
                        self.visit(1)
                    } else {
                        self.leave(None)
                    }
                },
                None => self.fail(EvalError::NotALiteral),
            }
        } else {
            self.visit(0)
        }
    }

    /// An operator that folds all its arguments into a running result has
    /// the value of an argument: it asks for the result and the argument to
    /// be combined. An argument that gives nothing is passed over.
    pub open spec fn fold(self, operator: Operators, value: Option<Value>) -> Machine {
        match value {
            Some(operand) => self.ask(
                RequestModel::Arithmetic {
                    operator,
                    left: self.top().held->0.text,
                    right: operand.text,
                },
            ),
            None => self.proceed(),
        }
    }

    /// `-` has the value of an argument. The first must be there, and is
    /// asked for as a number: it is the running result. Each further one is
    /// subtracted from it.
    pub open spec fn operator_minus(self, value: Option<Value>) -> Machine {
        if self.top().index == 0 {
            match value {
                Some(first) => self.ask(RequestModel::Number(first.text)),
                None => self.fail(EvalError::NotALiteral),
            }
        } else {
            self.fold(Operators::Minus, value)
        }
    }

    /// `/` has the value of an argument. The first must be there, and is
    /// asked for as a number: it is the running result. Of each further one
    /// the machine first asks whether it is zero.
    pub open spec fn operator_slash(self, value: Option<Value>) -> Machine {
        if self.top().index == 0 {
            match value {
                Some(first) => self.ask(RequestModel::Number(first.text)),
                None => self.fail(EvalError::NotALiteral),
            }
        } else {
            match value {
                Some(divisor) => self.ask(
                    RequestModel::Compare {
                        operator: Operators::Eq,
                        left: divisor.text,
                        right: "0"@,
                    },
                ),
                None => self.proceed(),
            }
        }
    }

    /// An operator of two operands has the value of one of them, which must
    /// be there: it keeps the left one and turns to the right one, or has
    /// both.
    pub open spec fn binary(self, value: Option<Value>) -> Machine {
        match value {
            Some(operand) => {
                if self.top().index == 0 {
                    self.hold(operand).visit(1)
                } else {
                    self.decide(self.top().held->0, operand)
                }
            },
            None => self.fail(EvalError::NotALiteral),
        }
    }

    /// An operator of two operands has both: `%` and the equalities go
    /// their own ways, and for an ordering the host is asked.
    pub open spec fn decide(self, left: Value, right: Value) -> Machine {
        match self.top().form {
            Builtin::Operator(operator) => match operator {
                Operators::Percent => self.operator_percent(left, right),
                Operators::Eq => self.operator_eq(left, right, false),
                Operators::Ne => self.operator_ne(left, right),
                Operators::Lt | Operators::Le | Operators::Gt | Operators::Ge => self.ask(
                    RequestModel::Compare { operator, left: left.text, right: right.text },
                ),
                _ => self.fail(EvalError::UnexpectedEvent),
            },
            _ => self.fail(EvalError::UnexpectedEvent),
        }
    }

    /// `%` has both operands: the host is asked for the remainder.
    pub open spec fn operator_percent(self, left: Value, right: Value) -> Machine {
        self.ask(
            RequestModel::Arithmetic {
                operator: Operators::Percent,
                left: left.text,
                right: right.text,
            },
        )
    }

    /// `!=` has both operands: it gives the opposite of what `=` gives.
    pub open spec fn operator_ne(self, left: Value, right: Value) -> Machine {
        self.operator_eq(left, right, true)
    }

    /// `=` has both operands, and so has, with `negated`, `!=`: two numbers
    /// are compared as numbers, which the host is asked to do; two strings
    /// are equal where their texts are; values of any other two kinds are
    /// unequal.
    pub open spec fn operator_eq(self, left: Value, right: Value, negated: bool) -> Machine {
        if is_number_kind(left.kind) && is_number_kind(right.kind) {
            self.ask(
                RequestModel::Compare {
                    operator: Operators::Eq,
                    left: left.text,
                    right: right.text,
                },
            )
        } else {
            self.leave(
                Some(
                    Value::truth(
                        (left.kind is String && right.kind is String && left.text == right.text)
                            != negated,
                    ),
                ),
            )
        }
    }

    /// A result arrives. Where no call is under way, an expression of the
    /// program has been evaluated, and the machine passes on to the next;
    /// else the innermost call takes the result.
    pub open spec fn deliver(self, value: Option<Value>) -> Machine {
        if self.stack.len() == 0 {
            Machine { store: Store { cursor: self.cursor + 1, ..self }, focus: FocusModel::Next }
        } else {
            match self.top().form {
                Builtin::Define => self.define(value),
                Builtin::Display => self.display(value),
                Builtin::Begin => self.begin(value),
                Builtin::If => self.if_statement(value),
                Builtin::While => self.while_statement(value),
                Builtin::Operator(Operators::Plus) => self.fold(Operators::Plus, value),
                Builtin::Operator(Operators::Asterisk) => self.fold(Operators::Asterisk, value),
                Builtin::Operator(Operators::Minus) => self.operator_minus(value),
                Builtin::Operator(Operators::Slash) => self.operator_slash(value),
                Builtin::Operator(_) => self.binary(value),
                _ => self.fail(EvalError::UnexpectedEvent),
            }
        }
    }

    /// `read` has its line: without its line break it must be written as a
    /// number, of numeric characters with at most one decimal point, and is
    /// a float where it has the point, else an integer.
    pub open spec fn read(self, line: Seq<char>) -> Machine {
        let text = strip(line);
        if number_text(text) {
            self.leave(
                Some(
                    Value {
                        kind: if has_point(text) {
                            Types::Float
                        } else {
                            Types::Int
                        },
                        text,
                    },
                ),
            )
        } else {
            self.fail(EvalError::NonNumericInput)
        }
    }

    /// `read-line` has its line, and gives it without its line break as a
    /// string.
    pub open spec fn read_line(self, line: Seq<char>) -> Machine {
        self.leave(Some(Value { kind: Types::String, text: strip(line) }))
    }

    /// The host has given a number: the result of `%`, or the new running
    /// result of an operator that folds its arguments.
    pub open spec fn take_number(self, text: Seq<char>) -> Machine {
        if self.top().form == Builtin::Operator(Operators::Percent) {
            self.leave(Some(Value::float(text)))
        } else {
            self.hold(Value::float(text)).proceed()
        }
    }

    /// The host has said whether a comparison holds. For `/` the question
    /// was whether the divisor is zero: if so the evaluation is given up,
    /// else the division is asked for.
    pub open spec fn take_truth(self, divisor: Seq<char>, holds: bool) -> Machine {
        match self.top().form {
            Builtin::Operator(Operators::Slash) => {
                if holds {
                    self.fail(EvalError::DivisionByZero)
                } else {
                    self.ask(
                        RequestModel::Arithmetic {
                            operator: Operators::Slash,
                            left: self.top().held->0.text,
                            right: divisor,
                        },
                    )
                }
            },
            Builtin::Operator(Operators::Ne) => self.leave(Some(Value::truth(!holds))),
            _ => self.leave(Some(Value::truth(holds))),
        }
    }

    /// The host answers the request that the machine waits on.
    pub open spec fn answer(self, asked: RequestModel, event: EventModel) -> Machine {
        match (asked, event) {
            (RequestModel::Print(_), EventModel::Printed) => self.leave(None),
            (RequestModel::ReadLine, EventModel::Line(line)) => {
                if self.top().form is Read {
                    self.read(line)
                } else {
                    self.read_line(line)
                }
            },
            (RequestModel::Number(_), EventModel::Number(text)) => self.take_number(text),
            (RequestModel::Arithmetic { .. }, EventModel::Number(text)) => self.take_number(text),
            (RequestModel::Compare { left, .. }, EventModel::Truth(holds)) => self.take_truth(
                left,
                holds,
            ),
            (RequestModel::Number(_), EventModel::NotNumeric) => self.fail(EvalError::NotNumeric),
            (RequestModel::Arithmetic { .. }, EventModel::NotNumeric) => self.fail(
                EvalError::NotNumeric,
            ),
            (RequestModel::Compare { .. }, EventModel::NotNumeric) => self.fail(
                EvalError::NotNumeric,
            ),
            _ => self.fail(EvalError::UnexpectedEvent),
        }
    }

    /// What holds of the calls under way whatever the machine is about to
    /// do: the place in the program, and that every call but the innermost
    /// waits for an argument.
    pub open spec fn wf(self) -> bool {
        &&& 0 <= self.cursor <= self.program.len()
        &&& forall|i: int| 0 <= i < self.stack.len() - 1 ==> (#[trigger] self.stack[i]).waits()
    }
}

impl Machine {
    /// The machine before the first expression of a program, with no
    /// variable bound.
    pub open spec fn start(program: Seq<Node>) -> Machine {
        Machine {
            store: Store { variables: Map::empty(), program, cursor: 0, stack: Seq::empty() },
            focus: FocusModel::Next,
        }
    }

    /// What the machine leaves its host to do.
    pub open spec fn action(self) -> ActionModel {
        match self.focus {
            FocusModel::Await(request) => ActionModel::Ask(request),
            FocusModel::Done => ActionModel::Finished,
            FocusModel::Failed(error) => ActionModel::Failed(error),
            _ => ActionModel::Continue,
        }
    }

    /// One transition. A machine that waits for its host, is done or has
    /// given up stays as it is.
    pub open spec fn step(self) -> Machine {
        match self.focus {
            FocusModel::Next => self.store.next_expression(),
            FocusModel::Eval(node) => self.store.eval(node),
            FocusModel::Return(value) => self.store.deliver(value),
            _ => self,
        }
    }

    /// The host's answer arrives. A machine that is done or has given up
    /// stays as it is; one that waits for no answer, or for another, gives
    /// up.
    pub open spec fn resume(self, event: EventModel) -> Machine {
        match self.focus {
            FocusModel::Await(asked) => self.store.answer(asked, event),
            FocusModel::Done => self,
            FocusModel::Failed(_) => self,
            _ => self.store.fail(EvalError::UnexpectedEvent),
        }
    }

    /// Transitions until the host has something to do, but `limit` at most.
    pub open spec fn run(self, limit: nat) -> Machine
        decreases limit,
    {
        if limit == 0 || !(self.action() is Continue) {
            self
        } else {
            self.step().run((limit - 1) as nat)
        }
    }

    /// What holds of every machine that was started and then only stepped
    /// and resumed.
    pub open spec fn wf(self) -> bool {
        &&& self.store.wf()
        &&& match self.focus {
            FocusModel::Next => self.store.stack.len() == 0,
            FocusModel::Done => self.store.stack.len() == 0,
            FocusModel::Eval(_) | FocusModel::Return(_) => {
                &&& self.store.cursor < self.store.program.len()
                &&& (self.store.stack.len() > 0 ==> self.store.top().waits())
            },
            FocusModel::Await(request) => {
                &&& self.store.cursor < self.store.program.len()
                &&& self.store.stack.len() > 0
                &&& self.store.top().asks(request)
            },
            FocusModel::Failed(_) => true,
        }
    }
}

/// A machine that is well formed stays so when it is stepped.
pub proof fn lemma_step_keeps_wf(machine: Machine)
    requires
        machine.wf(),
    ensures
        machine.step().wf(),
{
}

/// A machine that is well formed stays so when it is resumed.
pub proof fn lemma_resume_keeps_wf(machine: Machine, event: EventModel)
    requires
        machine.wf(),
    ensures
        machine.resume(event).wf(),
{
}

} // verus!
