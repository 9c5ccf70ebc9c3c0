use codebook::engine::{capture, finish_line, interpret_line, interpret_vec, load_file, Files, Flow, Message};
use codebook::semantics::Capture;
use codebook::number::{Arith, Compare, Number};
use codebook::session::SessionInfo;
use codebook::table::Table;

/// The single-precision domain that the command-line program uses.
#[derive(Clone, Copy, Debug, PartialEq)]
struct F(f32);

impl Number for F {
    // Each operation means what the single-precision computation gives.
    fn arith_spec(op: Arith, a: F, b: F) -> F {
        Self::arith(op, a, b)
    }
    fn compare_spec(op: Compare, a: F, b: F) -> bool {
        Self::compare(op, a, b)
    }
    fn int_spec(i: i32) -> F {
        Self::from_int(i)
    }
    fn count_spec(n: usize) -> F {
        Self::from_count(n)
    }
    fn trunc_spec(a: F) -> i32 {
        Self::trunc(a)
    }

    fn parse_spec(t: String) -> Option<F> {
        Self::parse(&t)
    }

    fn text_spec(a: F) -> String {
        Self::text(a)
    }
    fn arith(op: Arith, a: F, b: F) -> F {
        F(match op {
            Arith::Add => a.0 + b.0,
            Arith::Sub => a.0 - b.0,
            Arith::Mul => a.0 * b.0,
            Arith::Div => a.0 / b.0,
            Arith::Rem => a.0 % b.0,
            Arith::Pow => a.0.powf(b.0),
        })
    }
    fn compare(op: Compare, a: F, b: F) -> bool {
        match op {
            Compare::Eq => a.0 == b.0,
            Compare::Ne => a.0 != b.0,
            Compare::Lt => a.0 < b.0,
            Compare::Gt => a.0 > b.0,
            Compare::Le => a.0 <= b.0,
            Compare::Ge => a.0 >= b.0,
        }
    }
    fn from_int(i: i32) -> F {
        F(i as f32)
    }
    fn from_count(n: usize) -> F {
        F(n as f32)
    }
    fn trunc(a: F) -> i32 {
        a.0 as i32
    }
    fn parse(t: &str) -> Option<F> {
        t.parse::<f32>().ok().map(F)
    }
    fn text(a: F) -> String {
        a.0.to_string()
    }
}

struct Disk(Vec<(String, String)>);

impl Files for Disk {
    fn read_file(&mut self, path: &str) -> Option<String> {
        self.0.iter().find(|(p, _)| p == path).map(|(_, c)| c.clone())
    }
}

fn no_files() -> Disk {
    Disk(vec![])
}

fn run_in(s: &mut SessionInfo<F>, line: &str) -> Vec<Message> {
    let mut out = Vec::new();
    let flow = interpret_line(&line.to_string(), s, &mut no_files(), &mut out);
    assert_eq!(flow, Flow::Done);
    out
}

fn run(line: &str) -> (SessionInfo<F>, Vec<Message>) {
    let mut s = SessionInfo::new();
    let out = run_in(&mut s, line);
    (s, out)
}

fn stack(s: &SessionInfo<F>) -> Vec<f32> {
    s.stack.iter().map(|v| v.0).collect()
}

fn idents(s: &SessionInfo<F>) -> Vec<String> {
    s.idents.clone()
}

fn value<N: Copy>(t: &Table<N>, name: &str) -> Option<N> {
    t.find(name).map(|i| t.entries[i].1)
}

fn errors(out: &[Message]) -> Vec<String> {
    out.iter()
        .filter_map(|m| match m {
            Message::Error(t) => Some(t.clone()),
            _ => None,
        })
        .collect()
}

fn outs(out: &[Message]) -> Vec<String> {
    out.iter()
        .filter_map(|m| match m {
            Message::Out(t) => Some(t.clone()),
            _ => None,
        })
        .collect()
}

#[test]
fn addition_and_subtraction_keep_operand_order() {
    assert_eq!(stack(&run("2 3 +").0), vec![5.0]);
    assert_eq!(stack(&run("2 3 -").0), vec![-1.0]);
}

#[test]
fn other_arithmetic_operators() {
    assert_eq!(stack(&run("5 2 /").0), vec![2.5]);
    assert_eq!(stack(&run("7 3 %").0), vec![1.0]);
    assert_eq!(stack(&run("2 10 **").0), vec![1024.0]);
    assert_eq!(stack(&run("4 5 *").0), vec![20.0]);
    assert_eq!(stack(&run("4 ++").0), vec![5.0]);
    assert_eq!(stack(&run("4 --").0), vec![3.0]);
}

#[test]
fn arithmetic_short_of_operands_empties_stack() {
    let (s, out) = run("7 +");
    assert_eq!(stack(&s), Vec::<f32>::new());
    assert_eq!(errors(&out), vec!["Insufficient arguments!"]);
}

#[test]
fn comparisons_push_one_or_zero() {
    assert_eq!(stack(&run("2 3 <").0), vec![1.0]);
    assert_eq!(stack(&run("2 3 >").0), vec![0.0]);
    assert_eq!(stack(&run("3 3 <=").0), vec![1.0]);
    assert_eq!(stack(&run("2 3 >=").0), vec![0.0]);
    assert_eq!(stack(&run("3 3 ==").0), vec![1.0]);
    assert_eq!(stack(&run("3 3 !=").0), vec![0.0]);
}

#[test]
fn bitwise_operators_use_integer_parts() {
    assert_eq!(stack(&run("1 4 <<").0), vec![16.0]);
    assert_eq!(stack(&run("-16 2 >>").0), vec![-4.0]);
    assert_eq!(stack(&run("6.9 3 &").0), vec![2.0]);
    assert_eq!(stack(&run("6 3 |").0), vec![7.0]);
    assert_eq!(stack(&run("6 3 ^").0), vec![5.0]);
}

#[test]
fn comparison_short_of_operands_keeps_stack() {
    let (s, out) = run("4 <");
    assert_eq!(stack(&s), vec![4.0]);
    assert_eq!(errors(&out), vec!["Insufficient arguments!"]);
}

#[test]
fn definition_binds_variable() {
    let (s, _) = run("5 x def");
    assert_eq!(value(&s.variables, "x"), Some(F(5.0)));
    assert!(s.stack.is_empty());
    assert!(s.idents.is_empty());
}

#[test]
fn variable_reference_pushes_value_and_name() {
    let mut s = SessionInfo::new();
    run_in(&mut s, "5 x def");
    run_in(&mut s, "x 1 +");
    assert_eq!(stack(&s), vec![6.0]);
    assert_eq!(idents(&s), vec!["x"]);
}

#[test]
fn definition_reports_binding() {
    let (_, out) = run("5 x def");
    assert_eq!(outs(&out), vec!["x = 5"]);
    let (_, quiet) = run("-s 5 x def");
    assert!(outs(&quiet).is_empty());
}

#[test]
fn conditional_true_runs_block() {
    let (s, _) = run("1 { 5 ++ } if");
    assert_eq!(stack(&s), vec![6.0]);
    assert_eq!(s.bool_val, Some(true));
}

#[test]
fn conditional_false_runs_else() {
    let (s, _) = run("0 { 5 } if { 9 } else");
    assert_eq!(stack(&s), vec![9.0]);
}

#[test]
fn elif_chain() {
    let (s, _) = run("0 { 1 } if 1 { 2 } elif { 3 } else");
    assert_eq!(stack(&s), vec![2.0]);
    let (t, _) = run("1 { 1 } if 1 { 2 } elif");
    assert_eq!(stack(&t), vec![1.0]);
    assert_eq!(t.bool_val, None);
}

#[test]
fn elif_without_if_is_an_error() {
    let (s, out) = run("1 { 2 } elif 7");
    assert_eq!(errors(&out), vec!["elif block missing if/elif block!"]);
    assert!(s.script.is_empty());
    assert!(s.stack.is_empty());
}

#[test]
fn else_without_if_discards_block() {
    let (s, out) = run("{ 9 } else 4");
    assert_eq!(stack(&s), vec![4.0]);
    assert!(errors(&out).is_empty());
    assert!(s.script.is_empty());
}

#[test]
fn loop_runs_block_count_times() {
    let (s, _) = run("0 { 1 + } 3 times");
    assert_eq!(stack(&s), vec![3.0]);
    let (z, _) = run("0 { 1 + } 0 times");
    assert_eq!(stack(&z), vec![0.0]);
}

#[test]
fn loop_iterations_see_each_other() {
    let (s, _) = run("1 { dup + } 4 times");
    assert_eq!(stack(&s), vec![16.0]);
}

#[test]
fn factorial_values() {
    assert_eq!(stack(&run("5 n!").0), vec![120.0]);
    assert_eq!(stack(&run("0 n!").0), vec![1.0]);
    assert_eq!(stack(&run("1 n!").0), vec![1.0]);
    assert_eq!(stack(&run("-4 n!").0), vec![1.0]);
    assert_eq!(stack(&run("4.7 n!").0), vec![24.0]);
}

#[test]
fn constant_cannot_be_redefined() {
    let (s, out) = run("3 pi const 4 pi const");
    assert_eq!(value(&s.constants, "pi"), Some(F(3.0)));
    assert_eq!(errors(&out), vec!["You cannot define a constant."]);
}

#[test]
fn constant_reference_pushes_value() {
    let mut s = SessionInfo::new();
    run_in(&mut s, "3 pi const");
    run_in(&mut s, "-s pi 2 *");
    assert_eq!(stack(&s), vec![6.0]);
}

#[test]
fn local_function_shadows_namespace_function() {
    let (s, _) = run("{ 2 } f fn { { 1 } f fn } ns namespace f");
    assert_eq!(stack(&s), vec![2.0]);
    assert_eq!(s.namespaces[0].functions.len(), 1);
}

#[test]
fn namespace_function_is_callable() {
    let (s, _) = run("{ { 7 } g fn 5 v def } ns namespace g");
    assert_eq!(stack(&s), vec![7.0]);
    assert_eq!(s.namespaces.len(), 1);
    assert_eq!(s.namespaces[0].title, "ns");
    assert_eq!(value(&s.variables, "v"), None);
}

#[test]
fn earlier_namespace_wins() {
    let (s, _) = run("{ { 1 } h fn } a namespace { { 2 } h fn } b namespace h");
    assert_eq!(stack(&s), vec![1.0]);
}

#[test]
fn namespace_needs_a_name() {
    let (_, out) = run("{ 1 } namespace");
    assert_eq!(errors(&out), vec!["Namespace requires a name."]);
}

#[test]
fn reset_forgets_variables_and_functions_only() {
    let mut s = SessionInfo::new();
    run_in(&mut s, "1 c const 2 v def { 3 } f fn { { 4 } g fn } n namespace");
    let out = run_in(&mut s, "reset");
    assert_eq!(s.variables.len(), 0);
    assert_eq!(s.functions.len(), 0);
    assert_eq!(value(&s.constants, "c"), Some(F(1.0)));
    assert_eq!(s.namespaces.len(), 1);
    assert_eq!(outs(&out), vec!["Variables and functions reset."]);
}

#[test]
fn reset_of_named_items() {
    let mut s = SessionInfo::new();
    run_in(&mut s, "-sall 2 v def 3 w def { 3 } f fn");
    let out = run_in(&mut s, "{ v f q } reset");
    assert_eq!(value(&s.variables, "v"), None);
    assert_eq!(value(&s.variables, "w"), Some(F(3.0)));
    assert_eq!(s.functions.len(), 0);
    assert_eq!(outs(&out), vec!["Variable 'v' removed.", "Function 'f' removed."]);
    assert_eq!(errors(&out), vec!["Could not find identifier 'q'."]);
    assert!(s.script.is_empty());
}

#[test]
fn unexpected_closing_brace_stops_line() {
    let (s, out) = run("1 } 2");
    assert_eq!(stack(&s), vec![1.0]);
    assert_eq!(errors(&out), vec!["Unexpected '}' encountered!"]);
}

#[test]
fn nested_braces_are_kept_in_script() {
    let (s, _) = run("{ a { b } c }");
    assert_eq!(s.script, vec!["a", "{", "b", "}", "c"]);
}

#[test]
fn break_stops_only_current_block() {
    let (s, _) = run("1 { 1 break 2 } if 3");
    assert_eq!(stack(&s), vec![1.0, 3.0]);
}

#[test]
fn stack_operations() {
    assert_eq!(stack(&run("4 dup").0), vec![4.0, 4.0]);
    assert_eq!(stack(&run("4 5 drop").0), vec![4.0]);
    assert_eq!(stack(&run("7 8 STACK_SIZE").0), vec![7.0, 8.0, 2.0]);
    assert_eq!(errors(&run("dup").1), vec!["Nothing to duplicate."]);
    assert_eq!(errors(&run("drop").1), vec!["Nothing to drop."]);
    assert_eq!(errors(&run("pop_ident").1), vec!["Nothing to pop."]);
}

#[test]
fn last_pushes_stored_result() {
    let mut s = SessionInfo::new();
    s.last = F(42.0);
    run_in(&mut s, "last");
    assert_eq!(stack(&s), vec![42.0]);
}

#[test]
fn identifier_operations() {
    let (s, _) = run("12 push_ident");
    assert_eq!(idents(&s), vec!["12"]);
    let (t, _) = run("a b pop_ident");
    assert_eq!(idents(&t), vec!["a"]);
    let (u, _) = run("{ x } word concatf");
    assert_eq!(u.script, vec!["x", "word"]);
}

#[test]
fn pushch_builds_script_token() {
    let (s, _) = run("1 pushch 2 pushch");
    assert_eq!(s.script, vec!["12"]);
}

#[test]
fn messages_from_script() {
    let (_, out) = run("{ hello there } out { careful } warn { bad } err { raw } flush \"txt\" puts");
    assert!(matches!(&out[0], Message::Out(t) if t == "hello there"));
    assert!(matches!(&out[1], Message::Warn(t) if t == "careful"));
    assert!(matches!(&out[2], Message::Error(t) if t == "bad"));
    assert!(matches!(&out[3], Message::Plain(t) if t == "raw"));
    assert!(matches!(&out[4], Message::Raw(t) if t == "txt"));
}

#[test]
fn suppression_flags() {
    let (_, once) = run("-s { a } oout { b } oout");
    assert_eq!(outs(&once), vec!["b"]);
    let (_, all) = run("-sall { a } oout { b } oout");
    assert!(outs(&all).is_empty());
    let (_, empty) = run("oout");
    assert_eq!(outs(&empty), vec![" "]);
}

#[test]
fn listing_empty_script_stops_line() {
    let (s, out) = run("script 5");
    assert!(s.stack.is_empty());
    assert_eq!(outs(&out), vec!["None"]);
}

#[test]
fn malformed_escape_halts() {
    let mut s: SessionInfo<F> = SessionInfo::new();
    let mut out = Vec::new();
    let flow = interpret_line(&"1 \"a\\q\"".to_string(), &mut s, &mut no_files(), &mut out);
    assert_eq!(flow, Flow::Halt);
    assert_eq!(errors(&out), vec!["Unknown escape sequence encountered."]);
}

#[test]
fn brace_padded_literal_is_ignored() {
    let (s, _) = run("\" { \" 1");
    assert!(s.idents.is_empty());
    assert_eq!(stack(&s), vec![1.0]);
}

#[test]
fn load_file_runs_contents() {
    let mut s: SessionInfo<F> = SessionInfo::new();
    let mut files = Disk(vec![("lib.cb".to_string(), "{ 2 * } double fn".to_string())]);
    let mut out = Vec::new();
    let flow = interpret_line(&"\"lib.cb\" load_file 21 double".to_string(), &mut s, &mut files, &mut out);
    assert_eq!(flow, Flow::Done);
    assert_eq!(stack(&s), vec![42.0]);
    assert!(outs(&out).contains(&"Successfully loaded file 'lib.cb'.".to_string()));
    let mut out2 = Vec::new();
    assert!(load_file("missing.cb", &mut s, &mut files, &mut out2).is_err());
    assert_eq!(errors(&out2), vec!["Could not read file 'missing.cb'."]);
}

#[test]
fn interpret_vec_joins_tokens() {
    let mut s: SessionInfo<F> = SessionInfo::new();
    let mut out = Vec::new();
    let v = vec!["2".to_string(), "3 *".to_string()];
    interpret_vec(&v, &mut s, &mut no_files(), &mut out);
    assert_eq!(stack(&s), vec![6.0]);
}

#[test]
fn runaway_recursion_is_stopped() {
    let (_, out) = run("{ r } r fn r");
    assert!(errors(&out).contains(&"Calls nested too deeply.".to_string()));
}

#[test]
fn integer_domain() {
    let mut s: SessionInfo<i64> = SessionInfo::new();
    let mut out = Vec::new();
    interpret_line(&"2 3 - 7 2 / 5 n! 2 10 ** -7 push_ident".to_string(), &mut s, &mut no_files(), &mut out);
    assert_eq!(s.stack, vec![-1, 3, 120, 1024]);
    assert_eq!(s.idents, vec!["-7"]);
    let mut t: SessionInfo<i64> = SessionInfo::new();
    interpret_line(&"1 0 / 2.5".to_string(), &mut t, &mut no_files(), &mut out);
    assert_eq!(t.stack, vec![0]);
    assert_eq!(t.idents, vec!["2.5"]);
}

#[test]
fn capture_rules() {
    assert_eq!(capture(0, false, true, false), (1, true, Capture::Skip));
    assert_eq!(capture(1, true, true, false), (2, true, Capture::Store));
    assert_eq!(capture(2, true, false, true), (1, true, Capture::Store));
    assert_eq!(capture(1, true, false, true), (0, false, Capture::Dispatch));
    assert_eq!(capture(0, false, false, true), (0, false, Capture::Unexpected));
    assert_eq!(capture(1, true, false, false), (1, true, Capture::Store));
    assert_eq!(capture(0, false, false, false), (0, false, Capture::Dispatch));
}

#[test]
fn finish_line_stores_result_and_clears() {
    let mut s = SessionInfo::new();
    run_in(&mut s, "1 2 3 name");
    assert_eq!(finish_line(&mut s), Some(F(3.0)));
    assert_eq!(s.last, F(3.0));
    assert!(s.stack.is_empty());
    assert!(s.idents.is_empty());
    assert_eq!(finish_line(&mut s), None);
    assert_eq!(s.last, F(3.0));
}

#[test]
fn stray_brace_keeps_earlier_work() {
    let (s, out) = run("3 x def } 4");
    assert_eq!(value(&s.variables, "x"), Some(F(3.0)));
    assert!(s.stack.is_empty());
    assert_eq!(errors(&out), vec!["Unexpected '}' encountered!"]);
}
