use vstd::prelude::*;
use crate::model::Bits;
use crate::number::{Arith, Compare};
use crate::text::same_text;

verus! {

/// The severity of a message.
#[derive(PartialEq, Eq, Structural, Clone, Copy, Debug)]
pub enum Level {
    Out,
    Warn,
    Error,
}

/// What a token asks the engine to do.
#[derive(PartialEq, Eq, Structural, Clone, Copy, Debug)]
pub enum Op {
    Else,
    Elif,
    If,
    Times,
    Break,
    ShowScript,
    ShowIdentifiers,
    ShowConstants,
    ShowVariables,
    ShowNamespaces,
    ShowFunctions,
    ClearCode,
    Concatf,
    PushIdent,
    PopIdent,
    Pushch,
    Last,
    StackSize,
    Dup,
    Drop,
    /// `oout`, `owarn`, `oerr`: the script as a message that suppression
    /// silences.
    Optional(Level),
    /// `out`, `warn`, `err`: the script as a message.
    Say(Level),
    Flush,
    Arith(Arith),
    Step(Arith),
    Bits(Bits),
    Compare(Compare),
    Factorial,
    Puts,
    LoadFile,
    Def,
    Const,
    Fn,
    Namespace,
    Reset,
    Suppress,
    SuppressAll,
    Help,
    Credits,
    About,
    Clear,
    Ansi,
    /// Anything else: a number, a call, or a name.
    Word,
}

/// The operation table.
pub open spec fn op_of(t: Seq<char>) -> Op {
    if t == "else"@ {
        Op::Else
    } else if t == "elif"@ {
        Op::Elif
    } else if t == "script"@ {
        Op::ShowScript
    } else if t == "clear_code"@ {
        Op::ClearCode
    } else if t == "concatf"@ {
        Op::Concatf
    } else if t == "push_ident"@ {
        Op::PushIdent
    } else if t == "last"@ {
        Op::Last
    } else if t == "owarn"@ {
        Op::Optional(Level::Warn)
    } else if t == "oerr"@ {
        Op::Optional(Level::Error)
    } else if t == "oout"@ {
        Op::Optional(Level::Out)
    } else if t == "pop_ident"@ {
        Op::PopIdent
    } else if t == "identifiers"@ {
        Op::ShowIdentifiers
    } else if t == "+"@ {
        Op::Arith(Arith::Add)
    } else if t == "-"@ {
        Op::Arith(Arith::Sub)
    } else if t == "*"@ {
        Op::Arith(Arith::Mul)
    } else if t == "/"@ {
        Op::Arith(Arith::Div)
    } else if t == "%"@ {
        Op::Arith(Arith::Rem)
    } else if t == "**"@ {
        Op::Arith(Arith::Pow)
    } else if t == "++"@ {
        Op::Step(Arith::Add)
    } else if t == "--"@ {
        Op::Step(Arith::Sub)
    } else if t == ">>"@ {
        Op::Bits(Bits::Shr)
    } else if t == "<"@ {
        Op::Compare(Compare::Lt)
    } else if t == ">"@ {
        Op::Compare(Compare::Gt)
    } else if t == "<="@ {
        Op::Compare(Compare::Le)
    } else if t == ">="@ {
        Op::Compare(Compare::Ge)
    } else if t == "<<"@ {
        Op::Bits(Bits::Shl)
    } else if t == "|"@ {
        Op::Bits(Bits::Or)
    } else if t == "&"@ {
        Op::Bits(Bits::And)
    } else if t == "^"@ {
        Op::Bits(Bits::Xor)
    } else if t == "break"@ {
        Op::Break
    } else if t == "err"@ {
        Op::Say(Level::Error)
    } else if t == "constants"@ {
        Op::ShowConstants
    } else if t == "warn"@ {
        Op::Say(Level::Warn)
    } else if t == "times"@ {
        Op::Times
    } else if t == "puts"@ {
        Op::Puts
    } else if t == "STACK_SIZE"@ {
        Op::StackSize
    } else if t == "load_file"@ {
        Op::LoadFile
    } else if t == "if"@ {
        Op::If
    } else if t == "n!"@ {
        Op::Factorial
    } else if t == "=="@ {
        Op::Compare(Compare::Eq)
    } else if t == "!="@ {
        Op::Compare(Compare::Ne)
    } else if t == "credits"@ {
        Op::Credits
    } else if t == "about"@ {
        Op::About
    } else if t == "def"@ {
        Op::Def
    } else if t == "const"@ {
        Op::Const
    } else if t == "help"@ {
        Op::Help
    } else if t == "reset"@ {
        Op::Reset
    } else if t == "-s"@ {
        Op::Suppress
    } else if t == "-sall"@ {
        Op::SuppressAll
    } else if t == "dup"@ {
        Op::Dup
    } else if t == "drop"@ {
        Op::Drop
    } else if t == "fn"@ {
        Op::Fn
    } else if t == "clear"@ {
        Op::Clear
    } else if t == "variables"@ {
        Op::ShowVariables
    } else if t == "ansi"@ {
        Op::Ansi
    } else if t == "namespaces"@ {
        Op::ShowNamespaces
    } else if t == "functions"@ {
        Op::ShowFunctions
    } else if t == "out"@ {
        Op::Say(Level::Out)
    } else if t == "flush"@ {
        Op::Flush
    } else if t == "namespace"@ {
        Op::Namespace
    } else if t == "pushch"@ {
        Op::Pushch
    } else {
        Op::Word
    }
}

/// Looks a token up in the operation table.
pub fn classify(t: &str) -> (r: Op)
    ensures
        r == op_of(t@),
{
    if same_text(t, "else") {
        Op::Else
    } else if same_text(t, "elif") {
        Op::Elif
    } else if same_text(t, "script") {
        Op::ShowScript
    } else if same_text(t, "clear_code") {
        Op::ClearCode
    } else if same_text(t, "concatf") {
        Op::Concatf
    } else if same_text(t, "push_ident") {
        Op::PushIdent
    } else if same_text(t, "last") {
        Op::Last
    } else if same_text(t, "owarn") {
        Op::Optional(Level::Warn)
    } else if same_text(t, "oerr") {
        Op::Optional(Level::Error)
    } else if same_text(t, "oout") {
        Op::Optional(Level::Out)
    } else if same_text(t, "pop_ident") {
        Op::PopIdent
    } else if same_text(t, "identifiers") {
        Op::ShowIdentifiers
    } else if same_text(t, "+") {
        Op::Arith(Arith::Add)
    } else if same_text(t, "-") {
        Op::Arith(Arith::Sub)
    } else if same_text(t, "*") {
        Op::Arith(Arith::Mul)
    } else if same_text(t, "/") {
        Op::Arith(Arith::Div)
    } else if same_text(t, "%") {
        Op::Arith(Arith::Rem)
    } else if same_text(t, "**") {
        Op::Arith(Arith::Pow)
    } else if same_text(t, "++") {
        Op::Step(Arith::Add)
    } else if same_text(t, "--") {
        Op::Step(Arith::Sub)
    } else if same_text(t, ">>") {
        Op::Bits(Bits::Shr)
    } else if same_text(t, "<") {
        Op::Compare(Compare::Lt)
    } else if same_text(t, ">") {
        Op::Compare(Compare::Gt)
    } else if same_text(t, "<=") {
        Op::Compare(Compare::Le)
    } else if same_text(t, ">=") {
        Op::Compare(Compare::Ge)
    } else if same_text(t, "<<") {
        Op::Bits(Bits::Shl)
    } else if same_text(t, "|") {
        Op::Bits(Bits::Or)
    } else if same_text(t, "&") {
        Op::Bits(Bits::And)
    } else if same_text(t, "^") {
        Op::Bits(Bits::Xor)
    } else if same_text(t, "break") {
        Op::Break
    } else if same_text(t, "err") {
        Op::Say(Level::Error)
    } else if same_text(t, "constants") {
        Op::ShowConstants
    } else if same_text(t, "warn") {
        Op::Say(Level::Warn)
    } else if same_text(t, "times") {
        Op::Times
    } else if same_text(t, "puts") {
        Op::Puts
    } else if same_text(t, "STACK_SIZE") {
        Op::StackSize
    } else if same_text(t, "load_file") {
        Op::LoadFile
    } else if same_text(t, "if") {
        Op::If
    } else if same_text(t, "n!") {
        Op::Factorial
    } else if same_text(t, "==") {
        Op::Compare(Compare::Eq)
    } else if same_text(t, "!=") {
        Op::Compare(Compare::Ne)
    } else if same_text(t, "credits") {
        Op::Credits
    } else if same_text(t, "about") {
        Op::About
    } else if same_text(t, "def") {
        Op::Def
    } else if same_text(t, "const") {
        Op::Const
    } else if same_text(t, "help") {
        Op::Help
    } else if same_text(t, "reset") {
        Op::Reset
    } else if same_text(t, "-s") {
        Op::Suppress
    } else if same_text(t, "-sall") {
        Op::SuppressAll
    } else if same_text(t, "dup") {
        Op::Dup
    } else if same_text(t, "drop") {
        Op::Drop
    } else if same_text(t, "fn") {
        Op::Fn
    } else if same_text(t, "clear") {
        Op::Clear
    } else if same_text(t, "variables") {
        Op::ShowVariables
    } else if same_text(t, "ansi") {
        Op::Ansi
    } else if same_text(t, "namespaces") {
        Op::ShowNamespaces
    } else if same_text(t, "functions") {
        Op::ShowFunctions
    } else if same_text(t, "out") {
        Op::Say(Level::Out)
    } else if same_text(t, "flush") {
        Op::Flush
    } else if same_text(t, "namespace") {
        Op::Namespace
    } else if same_text(t, "pushch") {
        Op::Pushch
    } else {
        Op::Word
    }
}

} // verus!
