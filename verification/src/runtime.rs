//! The evaluator: a tree-walking interpreter in the shape of a machine that
//! its host advances.
//!
//! A [`Runtime`] is made from the expressions of a program. Its host calls
//! [`Runtime::run`] (or [`Runtime::step`]) and does what the returned
//! [`Action`] asks: for [`Action::Ask`] it performs the request and hands
//! the answer to [`Runtime::resume`]. What each transition does is stated by
//! [`crate::machine::Machine`].

use vstd::prelude::*;
use vstd::pervasive::unreached;
use crate::display::{chomp_text, contains_point, display_text, is_number_text, strip_line};
use crate::machine::{
    builtin_of,
    lemma_resume_keeps_wf,
    lemma_step_keeps_wf,
    ActionModel,
    Builtin,
    EvalError,
    EventModel,
    FocusModel,
    FrameModel,
    Machine,
    RequestModel,
    Store,
};
use crate::parser::{lemma_call_model, models, Argument, Expression, LiteralVariable, Value};
use crate::text::same_text;
use crate::types::{Operators, Types};
use crate::variables::Variables;

verus! {

/// What the machine asks of its host.
#[derive(Debug)]
pub enum Request {
    /// Write the text to the output, and flush.
    Print(String),
    /// Read one line from the input.
    ReadLine,
    /// Read the text as a number and give the number's text.
    Number(String),
    /// Give the text of `left operator right`, both read as numbers.
    Arithmetic { operator: Operators, left: String, right: String },
    /// Say whether `left operator right` holds, both read as numbers.
    Compare { operator: Operators, left: String, right: String },
}

/// What the host answers.
#[derive(Debug)]
pub enum Event {
    /// The text was written.
    Printed,
    /// The line that was read, with its line break if it had one.
    Line(String),
    /// The text of the number that was asked for.
    Number(String),
    /// Whether the comparison holds.
    Truth(bool),
    /// A text that was to be read as a number is none.
    NotNumeric,
}

/// What a transition leaves the host to do.
#[derive(Debug)]
pub enum Action {
    /// Nothing: the machine can be stepped again.
    Continue,
    /// Answer the request, then resume the machine.
    Ask(Request),
    /// Nothing: the program has run to its end.
    Finished,
    /// Nothing: the evaluation was given up.
    Failed(EvalError),
}

impl View for Request {
    type V = RequestModel;

    open spec fn view(&self) -> RequestModel {
        match self {
            Request::Print(text) => RequestModel::Print(text@),
            Request::ReadLine => RequestModel::ReadLine,
            Request::Number(text) => RequestModel::Number(text@),
            Request::Arithmetic { operator, left, right } => RequestModel::Arithmetic {
                operator: *operator,
                left: left@,
                right: right@,
            },
            Request::Compare { operator, left, right } => RequestModel::Compare {
                operator: *operator,
                left: left@,
                right: right@,
            },
        }
    }
}

impl View for Event {
    type V = EventModel;

    open spec fn view(&self) -> EventModel {
        match self {
            Event::Printed => EventModel::Printed,
            Event::Line(line) => EventModel::Line(line@),
            Event::Number(text) => EventModel::Number(text@),
            Event::Truth(holds) => EventModel::Truth(*holds),
            Event::NotNumeric => EventModel::NotNumeric,
        }
    }
}

impl View for Action {
    type V = ActionModel;

    open spec fn view(&self) -> ActionModel {
        match self {
            Action::Continue => ActionModel::Continue,
            Action::Ask(request) => ActionModel::Ask(request@),
            Action::Finished => ActionModel::Finished,
            Action::Failed(error) => ActionModel::Failed(*error),
        }
    }
}

impl Request {
    /// A copy of the request.
    pub fn duplicate(&self) -> (copy: Request)
        ensures
            copy@ == self@,
    {
        match self {
            Request::Print(text) => Request::Print(text.clone()),
            Request::ReadLine => Request::ReadLine,
            Request::Number(text) => Request::Number(text.clone()),
            Request::Arithmetic { operator, left, right } => Request::Arithmetic {
                operator: *operator,
                left: left.clone(),
                right: right.clone(),
            },
            Request::Compare { operator, left, right } => Request::Compare {
                operator: *operator,
                left: left.clone(),
                right: right.clone(),
            },
        }
    }
}

/// A value that may be missing, as contracts speak of it.
pub open spec fn value_model(value: Option<LiteralVariable>) -> Option<Value> {
    match value {
        Some(literal) => Some(literal@),
        None => None,
    }
}

/// A call that is under way.
#[derive(Debug)]
pub struct Frame {
    pub form: Builtin,
    pub arguments: Vec<Argument>,
    pub index: usize,
    pub held: Option<LiteralVariable>,
}

impl View for Frame {
    type V = FrameModel;

    open spec fn view(&self) -> FrameModel {
        FrameModel {
            form: self.form,
            arguments: models(self.arguments@),
            index: self.index as int,
            held: value_model(self.held),
        }
    }
}

/// What the machine is about to do.
#[derive(Debug)]
pub enum Focus {
    Next,
    Eval(Argument),
    Return(Option<LiteralVariable>),
    Await(Request),
    Done,
    Failed(EvalError),
}

impl View for Focus {
    type V = FocusModel;

    open spec fn view(&self) -> FocusModel {
        match self {
            Focus::Next => FocusModel::Next,
            Focus::Eval(node) => FocusModel::Eval(node.model()),
            Focus::Return(value) => FocusModel::Return(value_model(*value)),
            Focus::Await(request) => FocusModel::Await(request@),
            Focus::Done => FocusModel::Done,
            Focus::Failed(error) => FocusModel::Failed(*error),
        }
    }
}

/// The frames of a stack, each by its view.
pub open spec fn frame_models(stack: Seq<Frame>) -> Seq<FrameModel> {
    Seq::new(stack.len(), |i: int| stack[i]@)
}

/// The form that a name calls.
pub fn lookup_builtin(name: &str) -> (form: Option<Builtin>)
    ensures
        form == builtin_of(name@),
{
    if same_text(name, "display") {
        Some(Builtin::Display)
    } else if same_text(name, "begin") {
        Some(Builtin::Begin)
    } else if same_text(name, "newline") {
        Some(Builtin::Newline)
    } else if same_text(name, "define") {
        Some(Builtin::Define)
    } else if same_text(name, "read") {
        Some(Builtin::Read)
    } else if same_text(name, "read-line") {
        Some(Builtin::ReadLine)
    } else if same_text(name, "while") {
        Some(Builtin::While)
    } else if same_text(name, "if") {
        Some(Builtin::If)
    } else if same_text(name, "true") || same_text(name, "#t") {
        Some(Builtin::True)
    } else if same_text(name, "false") || same_text(name, "#f") {
        Some(Builtin::False)
    } else if same_text(name, "+") {
        Some(Builtin::Operator(Operators::Plus))
    } else if same_text(name, "*") {
        Some(Builtin::Operator(Operators::Asterisk))
    } else if same_text(name, "-") {
        Some(Builtin::Operator(Operators::Minus))
    } else if same_text(name, "/") {
        Some(Builtin::Operator(Operators::Slash))
    } else if same_text(name, "<") {
        Some(Builtin::Operator(Operators::Lt))
    } else if same_text(name, "<=") {
        Some(Builtin::Operator(Operators::Le))
    } else if same_text(name, ">") {
        Some(Builtin::Operator(Operators::Gt))
    } else if same_text(name, ">=") {
        Some(Builtin::Operator(Operators::Ge))
    } else if same_text(name, "=") {
        Some(Builtin::Operator(Operators::Eq))
    } else if same_text(name, "!=") {
        Some(Builtin::Operator(Operators::Ne))
    } else if same_text(name, "%") {
        Some(Builtin::Operator(Operators::Percent))
    } else if same_text(name, "") {
        Some(Builtin::Nothing)
    } else {
        None
    }
}

/// The value of a condition.
pub fn truth(holds: bool) -> (value: LiteralVariable)
    ensures
        value@ == Value::truth(holds),
{
    LiteralVariable {
        var_type: Types::Int,
        value: if holds {
            String::from_str("1")
        } else {
            String::from_str("0")
        },
    }
}

/// Whether values of this kind are numbers.
pub fn is_number(kind: Types) -> (r: bool)
    ensures
        r == crate::machine::is_number_kind(kind),
{
    match kind {
        Types::Int => true,
        Types::Float => true,
        _ => false,
    }
}

/// The evaluator's state.
#[derive(Debug)]
pub struct Runtime {
    expressions: Vec<Argument>,
    variables: Variables,
    cursor: usize,
    stack: Vec<Frame>,
    focus: Focus,
}

impl View for Runtime {
    type V = Machine;

    closed spec fn view(&self) -> Machine {
        Machine { store: self.store(), focus: self.focus@ }
    }
}

impl Runtime {
    /// All of the state but the focus.
    pub closed spec fn store(&self) -> Store {
        Store {
            variables: self.variables@,
            program: models(self.expressions@),
            cursor: self.cursor as int,
            stack: frame_models(self.stack@),
        }
    }

    /// What holds of every runtime that was made by [`Runtime::new`] and
    /// then only stepped, run and resumed.
    pub closed spec fn inv(&self) -> bool {
        self.variables.wf() && self@.wf()
    }

    /// A runtime before the first expression of the program, with no
    /// variable bound.
    pub fn new(expressions: Vec<Argument>) -> (runtime: Self)
        ensures
            runtime.inv(),
            runtime@ == Machine::start(models(expressions@)),
    {
        let runtime = Runtime {
            expressions,
            variables: Variables::new(),
            cursor: 0,
            stack: Vec::new(),
            focus: Focus::Next,
        };
        assert(frame_models(runtime.stack@) =~= Seq::<FrameModel>::empty());
        runtime
    }

    /// What the runtime leaves its host to do.
    pub fn action(&self) -> (action: Action)
        ensures
            action@ == self@.action(),
    {
        match &self.focus {
            Focus::Await(request) => Action::Ask(request.duplicate()),
            Focus::Done => Action::Finished,
            Focus::Failed(error) => Action::Failed(*error),
            _ => Action::Continue,
        }
    }

    /// The value of a variable, if the name is bound.
    pub fn variable(&self, name: &str) -> (value: Option<LiteralVariable>)
        requires
            self.inv(),
        ensures
            match value {
                Some(found) => self@.store.variables.contains_key(name@) && found@
                    == self@.store.variables[name@],
                None => !self@.store.variables.contains_key(name@),
            },
    {
        self.variables.get(name)
    }

    fn pop_frame(&mut self) -> (frame: Frame)
        requires
            old(self).store().stack.len() > 0,
        ensures
            final(self).store() == old(self).store().pop(),
            frame@ == old(self).store().top(),
            final(self).focus == old(self).focus,
            final(self).variables == old(self).variables,
    {
        let frame = self.stack.pop().unwrap();
        assert(frame_models(self.stack@) =~= frame_models(old(self).stack@).drop_last());
        frame
    }

    fn push_frame(&mut self, frame: Frame)
        ensures
            final(self).store() == old(self).store().push(frame@),
            final(self).focus == old(self).focus,
            final(self).variables == old(self).variables,
    {
        self.stack.push(frame);
        assert(frame_models(self.stack@) =~= frame_models(old(self).stack@).push(frame@));
    }

    /// The evaluation is given up.
    fn fail(&mut self, error: EvalError)
        ensures
            final(self)@ == old(self).store().fail(error),
            final(self).variables == old(self).variables,
    {
        self.focus = Focus::Failed(error);
    }

    /// A result is on its way to the innermost call.
    fn give(&mut self, value: Option<LiteralVariable>)
        ensures
            final(self)@ == old(self).store().give(value_model(value)),
            final(self).variables == old(self).variables,
    {
        self.focus = Focus::Return(value);
    }

    /// The machine stops and asks its host.
    fn ask(&mut self, request: Request)
        ensures
            final(self)@ == old(self).store().ask(request@),
            final(self).variables == old(self).variables,
    {
        self.focus = Focus::Await(request);
    }

    /// The innermost call ends with this result.
    fn leave(&mut self, value: Option<LiteralVariable>)
        requires
            old(self).store().stack.len() > 0,
        ensures
            final(self)@ == old(self).store().leave(value_model(value)),
            final(self).variables == old(self).variables,
    {
        let _ = self.pop_frame();
        self.give(value);
    }

    /// The innermost call holds `value`.
    fn hold(&mut self, value: LiteralVariable)
        requires
            old(self).store().stack.len() > 0,
        ensures
            final(self).store() == old(self).store().hold(value@),
            final(self).store().stack.len() > 0,
            final(self).focus == old(self).focus,
            final(self).variables == old(self).variables,
    {
        let Frame { form, arguments, index, held: _ } = self.pop_frame();
        self.push_frame(Frame { form, arguments, index, held: Some(value) });
    }

    /// The innermost call turns to its argument at `index`.
    fn visit(&mut self, index: usize)
        requires
            old(self).store().stack.len() > 0,
            index < old(self).store().top().arguments.len(),
        ensures
            final(self)@ == old(self).store().visit(index as int),
            final(self).variables == old(self).variables,
    {
        let Frame { form, arguments, index: _, held } = self.pop_frame();
        let node = arguments[index].duplicate();
        self.push_frame(Frame { form, arguments, index, held });
        self.focus = Focus::Eval(node);
    }

    /// The innermost call has seen all its arguments.
    fn finish(&mut self)
        requires
            old(self).store().stack.len() > 0,
            old(self).store().top().form is Display ==> old(self).store().top().held is Some,
        ensures
            final(self)@ == old(self).store().finish(),
            final(self).variables == old(self).variables,
    {
        let Frame { form, arguments, index, held } = self.pop_frame();
        match form {
            Builtin::Display => {
                let printed = display_text(held.as_ref().unwrap().value.as_str());
                self.push_frame(Frame { form, arguments, index, held });
                assert(self.store() =~= old(self).store()) by {
                    assert(self.store().stack =~= old(self).store().stack);
                }
                self.ask(Request::Print(printed));
            },
            Builtin::Begin => {
                self.give(None);
            },
            _ => {
                self.give(held);
            },
        }
    }

    /// The innermost call starts on its arguments.
    fn begin_arguments(&mut self)
        requires
            old(self).store().stack.len() > 0,
            old(self).store().top().form is Display ==> old(self).store().top().held is Some,
        ensures
            final(self)@ == old(self).store().begin_arguments(),
            final(self).variables == old(self).variables,
    {
        let n = self.stack.len();
        if self.stack[n - 1].arguments.len() > 0 {
            self.visit(0);
        } else {
            self.finish();
        }
    }

    /// The innermost call turns to its next argument.
    fn proceed(&mut self)
        requires
            old(self).store().stack.len() > 0,
            old(self).store().top().form is Display ==> old(self).store().top().held is Some,
        ensures
            final(self)@ == old(self).store().proceed(),
            final(self).variables == old(self).variables,
    {
        let n = self.stack.len();
        let index = self.stack[n - 1].index;
        let count = self.stack[n - 1].arguments.len();
        if index < count && count - index > 1 {
            self.visit(index + 1);
        } else {
            self.finish();
        }
    }

    /// One more call is under way.
    fn push(&mut self, form: Builtin, arguments: Vec<Argument>, held: Option<LiteralVariable>)
        ensures
            final(self).store() == old(self).store().push(
                FrameModel::enter(form, models(arguments@), value_model(held)),
            ),
            final(self).focus == old(self).focus,
            final(self).variables == old(self).variables,
    {
        self.push_frame(Frame { form, arguments, index: 0, held });
    }

    /// A call of `form` is entered.
    fn enter(&mut self, form: Builtin, arguments: Vec<Argument>)
        ensures
            final(self)@ == old(self).store().enter(form, models(arguments@)),
            final(self).variables == old(self).variables,
    {
        let count = arguments.len();
        match form {
            Builtin::Nothing => {
                self.give(None);
            },
            Builtin::True => {
                self.give(Some(truth(true)));
            },
            Builtin::False => {
                self.give(Some(truth(false)));
            },
            Builtin::Newline => {
                let mut text = String::new();
                text.push('\n');
                assert(text@ =~= seq!['\n']);
                self.push(form, arguments, None);
                self.ask(Request::Print(text));
            },
            Builtin::Read | Builtin::ReadLine => {
                self.push(form, arguments, None);
                self.ask(Request::ReadLine);
            },
            Builtin::Display => {
                let gathered = LiteralVariable { var_type: Types::String, value: String::new() };
                self.push(form, arguments, Some(gathered));
                self.begin_arguments();
            },
            Builtin::Begin => {
                self.push(form, arguments, None);
                self.begin_arguments();
            },
            Builtin::Define => {
                if count < 2 {
                    self.fail(EvalError::MissingArgument);
                } else {
                    let named = match &arguments[0] {
                        Argument::LiteralVariable(_) => true,
                        Argument::Expression(_) => false,
                    };
                    if named {
                        self.push(form, arguments, None);
                        self.visit(1);
                    } else {
                        self.fail(EvalError::InvalidName);
                    }
                }
            },
            Builtin::If | Builtin::While => {
                if count < 2 {
                    self.fail(EvalError::MissingArgument);
                } else {
                    self.push(form, arguments, None);
                    self.visit(0);
                }
            },
            Builtin::Operator(Operators::Plus) => {
                let zero = LiteralVariable { var_type: Types::Float, value: String::from_str("0") };
                self.push(form, arguments, Some(zero));
                self.begin_arguments();
            },
            Builtin::Operator(Operators::Asterisk) => {
                let one = LiteralVariable { var_type: Types::Float, value: String::from_str("1") };
                self.push(form, arguments, Some(one));
                self.begin_arguments();
            },
            Builtin::Operator(Operators::Minus) | Builtin::Operator(Operators::Slash) => {
                if count < 1 {
                    self.fail(EvalError::MissingArgument);
                } else {
                    self.push(form, arguments, None);
                    self.visit(0);
                }
            },
            Builtin::Operator(_) => {
                if count < 2 {
                    self.fail(EvalError::MissingArgument);
                } else {
                    self.push(form, arguments, None);
                    self.visit(0);
                }
            },
        }
    }

    /// An expression is evaluated.
    fn eval(&mut self, node: Argument)
        requires
            old(self).variables.wf(),
        ensures
            final(self)@ == old(self).store().eval(node.model()),
            final(self).variables == old(self).variables,
    {
        proof {
            lemma_call_model(node);
        }
        match node {
            Argument::LiteralVariable(literal) => {
                match self.variables.get(literal.value.as_str()) {
                    Some(found) => {
                        self.give(Some(found));
                    },
                    None => {
                        self.give(Some(literal));
                    },
                }
            },
            Argument::Expression(call) => {
                let Expression { function, arguments } = call;
                match lookup_builtin(function.as_str()) {
                    Some(form) => {
                        self.enter(form, arguments);
                    },
                    None => {
                        self.fail(EvalError::UnknownFunction);
                    },
                }
            },
        }
    }

    /// The text that the innermost call holds.
    fn held_text(&self) -> (text: String)
        requires
            self.store().stack.len() > 0,
            self.store().top().held is Some,
        ensures
            text@ == self.store().top().held->0.text,
    {
        let n = self.stack.len();
        match &self.stack[n - 1].held {
            Some(held) => held.value.clone(),
            None => unreached(),
        }
    }

    /// The form of the innermost call.
    fn top_form(&self) -> (form: Builtin)
        requires
            self.store().stack.len() > 0,
        ensures
            form == self.store().top().form,
    {
        let n = self.stack.len();
        self.stack[n - 1].form
    }

    /// The index of the argument that the innermost call is at.
    fn top_index(&self) -> (index: usize)
        requires
            self.store().stack.len() > 0,
        ensures
            index == self.store().top().index,
    {
        let n = self.stack.len();
        self.stack[n - 1].index
    }

    /// `define` has the value of its second argument.
    fn define(&mut self, value: Option<LiteralVariable>)
        requires
            old(self).variables.wf(),
            old(self).store().stack.len() > 0,
            old(self).store().top().waits(),
            old(self).store().top().form is Define,
        ensures
            final(self)@ == old(self).store().define(value_model(value)),
            final(self).variables.wf(),
    {
        match value {
            Some(bound) => {
                let frame = self.pop_frame();
                let name = match &frame.arguments[0] {
                    Argument::LiteralVariable(literal) => literal.value.clone(),
                    Argument::Expression(_) => unreached(),
                };
                self.variables.define(name, bound);
                self.give(None);
            },
            None => {
                self.fail(EvalError::NotALiteral);
            },
        }
    }

    /// `display` has the value of an argument.
    fn display(&mut self, value: Option<LiteralVariable>)
        requires
            old(self).store().stack.len() > 0,
            old(self).store().top().waits(),
            old(self).store().top().form is Display,
        ensures
            final(self)@ == old(self).store().display(value_model(value)),
            final(self).variables == old(self).variables,
    {
        match value {
            Some(shown) => {
                let cut = chomp_text(shown.value.as_str());
                let gathered = self.held_text().concat(cut.as_str());
                self.hold(LiteralVariable { var_type: Types::String, value: gathered });
                self.proceed();
            },
            None => {
                self.fail(EvalError::NotALiteral);
            },
        }
    }

    /// `begin` has the value of an argument.
    fn begin(&mut self, value: Option<LiteralVariable>)
        requires
            old(self).store().stack.len() > 0,
            old(self).store().top().form is Begin,
        ensures
            final(self)@ == old(self).store().begin(value_model(value)),
            final(self).variables == old(self).variables,
    {
        self.proceed();
    }

    /// `if` has the value of its condition or of a branch.
    fn if_statement(&mut self, value: Option<LiteralVariable>)
        requires
            old(self).store().stack.len() > 0,
            old(self).store().top().waits(),
            old(self).store().top().form is If,
        ensures
            final(self)@ == old(self).store().if_statement(value_model(value)),
            final(self).variables == old(self).variables,
    {
        if self.top_index() == 0 {
            match value {
                Some(condition) => {
                    let n = self.stack.len();
                    if same_text(condition.value.as_str(), "1") {
                        self.visit(1);
                    } else if self.stack[n - 1].arguments.len() == 2 {
                        self.leave(None);
                    } else {
                        self.visit(2);
                    }
                },
                None => {
                    self.fail(EvalError::NotALiteral);
                },
            }
        } else {
            self.leave(value);
        }
    }

    /// `while` has the value of its condition or of its body.
    fn while_statement(&mut self, value: Option<LiteralVariable>)
        requires
            old(self).store().stack.len() > 0,
            old(self).store().top().waits(),
            old(self).store().top().form is While,
        ensures
            final(self)@ == old(self).store().while_statement(value_model(value)),
            final(self).variables == old(self).variables,
    {
        if self.top_index() == 0 {
            match value {
                Some(condition) => {
                    if same_text(condition.value.as_str(), "1") {
                        self.visit(1);
                    } else {
                        self.leave(None);
                    }
                },
                None => {
                    self.fail(EvalError::NotALiteral);
                },
            }
        } else {
            self.visit(0);
        }
    }

    /// An operator that folds its arguments has the value of one.
    fn fold(&mut self, operator: Operators, value: Option<LiteralVariable>)
        requires
            old(self).store().stack.len() > 0,
            old(self).store().top().held is Some,
        ensures
            final(self)@ == old(self).store().fold(operator, value_model(value)),
            final(self).variables == old(self).variables,
    {
        match value {
            Some(operand) => {
                let left = self.held_text();
                self.ask(Request::Arithmetic { operator, left, right: operand.value });
            },
            None => {
                self.proceed();
            },
        }
    }

    /// `-` has the value of an argument.
    fn operator_minus(&mut self, value: Option<LiteralVariable>)
        requires
            old(self).store().stack.len() > 0,
            old(self).store().top().waits(),
            old(self).store().top().form == Builtin::Operator(Operators::Minus),
        ensures
            final(self)@ == old(self).store().operator_minus(value_model(value)),
            final(self).variables == old(self).variables,
    {
        if self.top_index() == 0 {
            match value {
                Some(first) => {
                    self.ask(Request::Number(first.value));
                },
                None => {
                    self.fail(EvalError::NotALiteral);
                },
            }
        } else {
            self.fold(Operators::Minus, value);
        }
    }

    /// `/` has the value of an argument.
    fn operator_slash(&mut self, value: Option<LiteralVariable>)
        requires
            old(self).store().stack.len() > 0,
            old(self).store().top().waits(),
            old(self).store().top().form == Builtin::Operator(Operators::Slash),
        ensures
            final(self)@ == old(self).store().operator_slash(value_model(value)),
            final(self).variables == old(self).variables,
    {
        if self.top_index() == 0 {
            match value {
                Some(first) => {
                    self.ask(Request::Number(first.value));
                },
                None => {
                    self.fail(EvalError::NotALiteral);
                },
            }
        } else {
            match value {
                Some(divisor) => {
                    self.ask(
                        Request::Compare {
                            operator: Operators::Eq,
                            left: divisor.value,
                            right: String::from_str("0"),
                        },
                    );
                },
                None => {
                    self.proceed();
                },
            }
        }
    }

    /// `%` has both operands.
    fn operator_percent(&mut self, left: LiteralVariable, right: LiteralVariable)
        ensures
            final(self)@ == old(self).store().operator_percent(left@, right@),
            final(self).variables == old(self).variables,
    {
        self.ask(
            Request::Arithmetic {
                operator: Operators::Percent,
                left: left.value,
                right: right.value,
            },
        );
    }

    /// `=` has both operands, and so has, with `negated`, `!=`.
    fn operator_eq(&mut self, left: LiteralVariable, right: LiteralVariable, negated: bool)
        requires
            old(self).store().stack.len() > 0,
        ensures
            final(self)@ == old(self).store().operator_eq(left@, right@, negated),
            final(self).variables == old(self).variables,
    {
        if is_number(left.var_type) && is_number(right.var_type) {
            self.ask(
                Request::Compare {
                    operator: Operators::Eq,
                    left: left.value,
                    right: right.value,
                },
            );
        } else {
            let both_strings = match (left.var_type, right.var_type) {
                (Types::String, Types::String) => true,
                _ => false,
            };
            let equal = both_strings && left.value == right.value;
            self.leave(Some(truth(equal != negated)));
        }
    }

    /// `!=` has both operands.
    fn operator_ne(&mut self, left: LiteralVariable, right: LiteralVariable)
        requires
            old(self).store().stack.len() > 0,
        ensures
            final(self)@ == old(self).store().operator_ne(left@, right@),
            final(self).variables == old(self).variables,
    {
        self.operator_eq(left, right, true);
    }

    /// An operator of two operands has both.
    fn decide(&mut self, left: LiteralVariable, right: LiteralVariable)
        requires
            old(self).store().stack.len() > 0,
        ensures
            final(self)@ == old(self).store().decide(left@, right@),
            final(self).variables == old(self).variables,
    {
        match self.top_form() {
            Builtin::Operator(operator) => match operator {
                Operators::Percent => {
                    self.operator_percent(left, right);
                },
                Operators::Eq => {
                    self.operator_eq(left, right, false);
                },
                Operators::Ne => {
                    self.operator_ne(left, right);
                },
                Operators::Lt | Operators::Le | Operators::Gt | Operators::Ge => {
                    self.ask(Request::Compare { operator, left: left.value, right: right.value });
                },
                _ => {
                    self.fail(EvalError::UnexpectedEvent);
                },
            },
            _ => {
                self.fail(EvalError::UnexpectedEvent);
            },
        }
    }

    /// An operator of two operands has the value of one of them.
    fn binary(&mut self, value: Option<LiteralVariable>)
        requires
            old(self).store().stack.len() > 0,
            old(self).store().top().waits(),
            old(self).store().top().form is Operator,
            old(self).store().top().arguments.len() >= 2,
            old(self).store().top().index == 1 ==> old(self).store().top().held is Some,
        ensures
            final(self)@ == old(self).store().binary(value_model(value)),
            final(self).variables == old(self).variables,
    {
        match value {
            Some(operand) => {
                if self.top_index() == 0 {
                    self.hold(operand);
                    self.visit(1);
                } else {
                    let n = self.stack.len();
                    let left = match &self.stack[n - 1].held {
                        Some(held) => held.duplicate(),
                        None => unreached(),
                    };
                    self.decide(left, operand);
                }
            },
            None => {
                self.fail(EvalError::NotALiteral);
            },
        }
    }

    /// A result arrives.
    fn deliver(&mut self, value: Option<LiteralVariable>)
        requires
            old(self).variables.wf(),
            old(self).store().cursor < old(self).store().program.len(),
            old(self).store().stack.len() > 0 ==> old(self).store().top().waits(),
        ensures
            final(self)@ == old(self).store().deliver(value_model(value)),
            final(self).variables.wf(),
    {
        if self.stack.len() == 0 {
            assert(self.cursor < self.expressions.len());
            self.cursor += 1;
            self.focus = Focus::Next;
            return ;
        }
        match self.top_form() {
            Builtin::Define => {
                self.define(value);
            },
            Builtin::Display => {
                self.display(value);
            },
            Builtin::Begin => {
                self.begin(value);
            },
            Builtin::If => {
                self.if_statement(value);
            },
            Builtin::While => {
                self.while_statement(value);
            },
            Builtin::Operator(Operators::Plus) => {
                self.fold(Operators::Plus, value);
            },
            Builtin::Operator(Operators::Asterisk) => {
                self.fold(Operators::Asterisk, value);
            },
            Builtin::Operator(Operators::Minus) => {
                self.operator_minus(value);
            },
            Builtin::Operator(Operators::Slash) => {
                self.operator_slash(value);
            },
            Builtin::Operator(_) => {
                self.binary(value);
            },
            _ => {
                self.fail(EvalError::UnexpectedEvent);
            },
        }
    }

    /// `read` has its line.
    fn read(&mut self, line: String)
        requires
            old(self).store().stack.len() > 0,
        ensures
            final(self)@ == old(self).store().read(line@),
            final(self).variables == old(self).variables,
    {
        let text = strip_line(line.as_str());
        if is_number_text(text.as_str()) {
            let kind = if contains_point(text.as_str()) {
                Types::Float
            } else {
                Types::Int
            };
            self.leave(Some(LiteralVariable { var_type: kind, value: text }));
        } else {
            self.fail(EvalError::NonNumericInput);
        }
    }

    /// `read-line` has its line.
    fn read_line(&mut self, line: String)
        requires
            old(self).store().stack.len() > 0,
        ensures
            final(self)@ == old(self).store().read_line(line@),
            final(self).variables == old(self).variables,
    {
        let text = strip_line(line.as_str());
        self.leave(Some(LiteralVariable { var_type: Types::String, value: text }));
    }

    /// The host has given a number.
    fn take_number(&mut self, text: String)
        requires
            old(self).store().stack.len() > 0,
        ensures
            final(self)@ == old(self).store().take_number(text@),
            final(self).variables == old(self).variables,
    {
        let number = LiteralVariable { var_type: Types::Float, value: text };
        match self.top_form() {
            Builtin::Operator(Operators::Percent) => {
                self.leave(Some(number));
            },
            _ => {
                self.hold(number);
                self.proceed();
            },
        }
    }

    /// The host has said whether a comparison holds.
    fn take_truth(&mut self, divisor: String, holds: bool)
        requires
            old(self).store().stack.len() > 0,
            old(self).store().top().form == Builtin::Operator(Operators::Slash) ==> old(
                self,
            ).store().top().held is Some,
        ensures
            final(self)@ == old(self).store().take_truth(divisor@, holds),
            final(self).variables == old(self).variables,
    {
        match self.top_form() {
            Builtin::Operator(Operators::Slash) => {
                if holds {
                    self.fail(EvalError::DivisionByZero);
                } else {
                    let left = self.held_text();
                    self.ask(
                        Request::Arithmetic { operator: Operators::Slash, left, right: divisor },
                    );
                }
            },
            Builtin::Operator(Operators::Ne) => {
                self.leave(Some(truth(!holds)));
            },
            _ => {
                self.leave(Some(truth(holds)));
            },
        }
    }

    /// The host answers the request that the machine waits on.
    fn answer(&mut self, asked: Request, event: Event)
        requires
            old(self).store().stack.len() > 0,
            old(self).store().top().asks(asked@),
        ensures
            final(self)@ == old(self).store().answer(asked@, event@),
            final(self).variables == old(self).variables,
    {
        match asked {
            Request::Print(_) => match event {
                Event::Printed => {
                    self.leave(None);
                },
                _ => {
                    self.fail(EvalError::UnexpectedEvent);
                },
            },
            Request::ReadLine => match event {
                Event::Line(line) => {
                    match self.top_form() {
                        Builtin::Read => {
                            self.read(line);
                        },
                        _ => {
                            self.read_line(line);
                        },
                    }
                },
                _ => {
                    self.fail(EvalError::UnexpectedEvent);
                },
            },
            Request::Number(_) => match event {
                Event::Number(text) => {
                    self.take_number(text);
                },
                Event::NotNumeric => {
                    self.fail(EvalError::NotNumeric);
                },
                _ => {
                    self.fail(EvalError::UnexpectedEvent);
                },
            },
            Request::Arithmetic { .. } => match event {
                Event::Number(text) => {
                    self.take_number(text);
                },
                Event::NotNumeric => {
                    self.fail(EvalError::NotNumeric);
                },
                _ => {
                    self.fail(EvalError::UnexpectedEvent);
                },
            },
            Request::Compare { left, .. } => match event {
                Event::Truth(holds) => {
                    self.take_truth(left, holds);
                },
                Event::NotNumeric => {
                    self.fail(EvalError::NotNumeric);
                },
                _ => {
                    self.fail(EvalError::UnexpectedEvent);
                },
            },
        }
    }

    /// The machine turns to the next expression of the program, or is done.
    fn next_expression(&mut self)
        requires
            old(self).cursor <= old(self).expressions@.len(),
        ensures
            final(self)@ == old(self).store().next_expression(),
            final(self).variables == old(self).variables,
    {
        if self.cursor < self.expressions.len() {
            self.focus = Focus::Eval(self.expressions[self.cursor].duplicate());
        } else {
            self.focus = Focus::Done;
        }
    }

    /// One transition. A runtime that waits for its host, is done or has
    /// given up stays as it is. The result says what is left to the host.
    pub fn step(&mut self) -> (action: Action)
        requires
            old(self).inv(),
        ensures
            final(self).inv(),
            final(self)@ == old(self)@.step(),
            action@ == final(self)@.action(),
    {
        proof {
            lemma_step_keeps_wf(self@);
        }
        let mut focus = Focus::Next;
        core::mem::swap(&mut self.focus, &mut focus);
        match focus {
            Focus::Next => {
                self.next_expression();
            },
            Focus::Eval(node) => {
                self.eval(node);
            },
            Focus::Return(value) => {
                self.deliver(value);
            },
            waiting => {
                self.focus = waiting;
            },
        }
        self.action()
    }

    /// The host's answer arrives. A runtime that is done or has given up
    /// stays as it is; one that waits for no answer, or for another, gives
    /// up. The result says what is left to the host.
    pub fn resume(&mut self, event: Event) -> (action: Action)
        requires
            old(self).inv(),
        ensures
            final(self).inv(),
            final(self)@ == old(self)@.resume(event@),
            action@ == final(self)@.action(),
    {
        proof {
            lemma_resume_keeps_wf(self@, event@);
        }
        let mut focus = Focus::Next;
        core::mem::swap(&mut self.focus, &mut focus);
        match focus {
            Focus::Await(asked) => {
                self.answer(asked, event);
            },
            Focus::Done => {
                self.focus = Focus::Done;
            },
            Focus::Failed(error) => {
                self.focus = Focus::Failed(error);
            },
            _ => {
                self.fail(EvalError::UnexpectedEvent);
            },
        }
        self.action()
    }

    /// Transitions until the host has something to do, but `limit` at most.
    /// The result is [`Action::Continue`] only where the limit was reached.
    pub fn run(&mut self, limit: usize) -> (action: Action)
        requires
            old(self).inv(),
        ensures
            final(self).inv(),
            final(self)@ == old(self)@.run(limit as nat),
            action@ == final(self)@.action(),
    {
        let mut action = self.action();
        let mut done: usize = 0;
        while done < limit && is_continue(&action)
            invariant
                self.inv(),
                done <= limit,
                action@ == self@.action(),
                old(self)@.run(limit as nat) == self@.run((limit - done) as nat),
            decreases limit - done,
        {
            action = self.step();
            done += 1;
        }
        action
    }
}

/// Whether the action leaves nothing to the host but to go on.
pub fn is_continue(action: &Action) -> (r: bool)
    ensures
        r == (action@ is Continue),
{
    match action {
        Action::Continue => true,
        _ => false,
    }
}

} // verus!
