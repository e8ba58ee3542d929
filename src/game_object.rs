use vstd::prelude::*;

use crate::lexer::{nat_text, int_text, push_int, push_nat};
use crate::parser::{Instruction, InstructionView};

verus! {

/// Why an object could not carry out an instruction.
#[derive(Debug, Clone, PartialEq, Eq)]
pub enum HandleError {
    /// An argument had the wrong type: the type expected and the argument's index.
    WrongArgType(String, u16),
    NotFound(String),
}

pub enum HandleErrorView {
    WrongArgType(Seq<char>, u16),
    NotFound(Seq<char>),
}

impl View for HandleError {
    type V = HandleErrorView;

    open spec fn view(&self) -> HandleErrorView {
        match self {
            HandleError::WrongArgType(t, at) => HandleErrorView::WrongArgType(t@, *at),
            HandleError::NotFound(m) => HandleErrorView::NotFound(m@),
        }
    }
}

pub open spec fn handle_error_text(e: HandleErrorView) -> Seq<char> {
    match e {
        HandleErrorView::WrongArgType(t, at) => "Expected argument of type '"@ + t + "' at "@
            + nat_text(at as nat),
        HandleErrorView::NotFound(m) => m,
    }
}

impl HandleError {
    /// The message shown to the user for this error.
    pub fn text(&self) -> (r: String)
        ensures
            r@ == handle_error_text(self@),
    {
        match self {
            HandleError::WrongArgType(expected, at) => {
                let mut s = String::new();
                s.append("Expected argument of type '");
                s.append(expected.as_str());
                s.append("' at ");
                push_nat(&mut s, *at as u64);
                assert(s@ =~= handle_error_text(self@));
                s
            },
            HandleError::NotFound(message) => message.clone(),
        }
    }
}

/// What an object hands back for an instruction it carried out.
#[derive(Debug, Clone, Copy, PartialEq, Eq, Structural)]
pub enum Value {
    Null,
    IntValue(i64),
    BoolValue(bool),
}

pub open spec fn value_text(v: Value) -> Seq<char> {
    match v {
        Value::Null => "Null"@,
        Value::IntValue(n) => int_text(n as int),
        Value::BoolValue(b) => if b {
            "true"@
        } else {
            "false"@
        },
    }
}

impl Value {
    /// The value as shown to the user.
    pub fn text(&self) -> (r: String)
        ensures
            r@ == value_text(*self),
    {
        let mut s = String::new();
        match self {
            Value::Null => s.append("Null"),
            Value::IntValue(n) => push_int(&mut s, *n),
            Value::BoolValue(b) => if *b {
                s.append("true")
            } else {
                s.append("false")
            },
        }
        assert(s@ =~= value_text(*self));
        s
    }
}

/// The message for a member that an object of type `class_name` does not have.
pub open spec fn not_found_message(class_name: Seq<char>, i: InstructionView) -> Seq<char> {
    match i {
        InstructionView::FunctionCall(name, _) => "Did not find any functions named '"@ + name
            + "' on "@ + class_name,
        InstructionView::Access(key, _) => "Did not find property '"@ + key + "' on "@
            + class_name,
    }
}

/// The name of the member that an instruction reaches first.
pub open spec fn member_name(i: InstructionView) -> Seq<char> {
    match i {
        InstructionView::FunctionCall(name, _) => name,
        InstructionView::Access(key, _) => key,
    }
}

/// Whether `needle` occurs in `hay`.
pub open spec fn contains(hay: Seq<char>, needle: Seq<char>) -> bool {
    exists|a: int| 0 <= a && a + needle.len() <= hay.len() && #[trigger] hay.subrange(a, a + needle.len()) == needle
}

/// The not-found message names both the member that was asked for and the object's type.
pub proof fn lemma_not_found_names_both(class_name: Seq<char>, i: InstructionView)
    ensures
        contains(not_found_message(class_name, i), member_name(i)),
        contains(not_found_message(class_name, i), class_name),
{
    let m = not_found_message(class_name, i);
    let name = member_name(i);
    let head = match i {
        InstructionView::FunctionCall(_, _) => "Did not find any functions named '"@,
        InstructionView::Access(_, _) => "Did not find property '"@,
    };
    let mid = "' on "@;
    assert(m == head + name + mid + class_name);
    let h = head.len() as int;
    assert(m.subrange(h, h + name.len()) =~= name);
    let c = h + name.len() + mid.len();
    assert(m.subrange(c, c + class_name.len()) =~= class_name);
}

/// An object that the command language can act on.
pub trait GameObject {
    /// Carries out `instruction` on this object.
    fn handle(&mut self, instruction: Instruction) -> Result<Value, HandleError>;

    /// The answer for a member that this object, of type `class_name`, does not have.
    fn return_err(&self, class_name: String, instruction: Instruction) -> (r: Result<
        Value,
        HandleError,
    >)
        ensures
            r matches Err(HandleError::NotFound(m)) && m@ == not_found_message(
                class_name@,
                instruction@,
            ),
    {
        let mut s = String::new();
        match instruction {
            Instruction::FunctionCall(name, _) => {
                s.append("Did not find any functions named '");
                s.append(name.as_str());
            },
            Instruction::Access(key, _) => {
                s.append("Did not find property '");
                s.append(key.as_str());
            },
        }
        s.append("' on ");
        s.append(class_name.as_str());
        assert(s@ =~= not_found_message(class_name@, instruction@));
        Err(HandleError::NotFound(s))
    }
}

} // verus!
