use crate::text::str_eq;
use vstd::prelude::*;

verus! {

/// The type of a macro parameter: a register, an immediate value, a memory
/// operand or a label.
#[derive(Clone, Copy, Debug, PartialEq, Eq, Structural)]
pub enum ArgumentType {
    Reg,
    Imm,
    Mem,
    Label,
}

/// One declared macro parameter: its name and its type.
#[derive(Debug, PartialEq, Eq)]
pub struct FullArgument {
    pub name: String,
    pub arg_type: ArgumentType,
}

/// A parsed macro definition: name, parameters in declaration order, and the
/// body tokens as they were read.
#[derive(Debug, PartialEq, Eq)]
pub struct MacroContent {
    pub name: String,
    pub args: Vec<FullArgument>,
    pub tokens: Vec<TokenKind>,
}

/// A token of the assembly language: punctuation, literals, and the
/// directives, labels, instructions and macro definitions made of them.
#[derive(Debug, PartialEq, Eq)]
pub enum TokenKind {
    LeftParen,
    RightParen,
    LeftBrace,
    RightBrace,
    Colon,
    Comma,
    Newline,
    Whitespace,
    Tab,
    Ident(String),
    IntLit(i64),
    StringLit(String),
    Directive(String),
    Label(String),
    Instruction(String),
    Macro(MacroContent),
}

/// The mathematical content of a [`MacroContent`]: its lists as sequences.
pub struct MacroView {
    pub name: String,
    pub args: Seq<FullArgument>,
    pub tokens: Seq<TokenKind>,
}

impl View for MacroContent {
    type V = MacroView;

    open spec fn view(&self) -> MacroView {
        MacroView { name: self.name, args: self.args@, tokens: self.tokens@ }
    }
}

impl ArgumentType {
    /// The type that a type name stands for, if it names one: `reg`, `imm`,
    /// `mem` or `label`.
    pub open spec fn spec_from_string(s: Seq<char>) -> Option<ArgumentType> {
        if s == "reg"@ {
            Some(ArgumentType::Reg)
        } else if s == "imm"@ {
            Some(ArgumentType::Imm)
        } else if s == "mem"@ {
            Some(ArgumentType::Mem)
        } else if s == "label"@ {
            Some(ArgumentType::Label)
        } else {
            None
        }
    }

    /// Looks a type name up. Names that stand for no type give `None`.
    pub fn from_string(s: &str) -> (t: Option<ArgumentType>)
        ensures
            t == Self::spec_from_string(s@),
    {
        if str_eq(s, "reg") {
            Some(ArgumentType::Reg)
        } else if str_eq(s, "imm") {
            Some(ArgumentType::Imm)
        } else if str_eq(s, "mem") {
            Some(ArgumentType::Mem)
        } else if str_eq(s, "label") {
            Some(ArgumentType::Label)
        } else {
            None
        }
    }
}

} // verus!
