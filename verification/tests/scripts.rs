use ilo::errors::{report_error, ErrorDetails, ErrorType};
use ilo::interpreter::Interpreter;
use ilo::lexer::Lexer;
use ilo::machine::{Action, Event};
use ilo::parser::Parser;
use ilo::semantics::Operation;

/// What a script did: its result or its error, and the lines it wrote.
struct Run {
    result: Result<String, ErrorDetails>,
    output: Vec<String>,
}

fn arithmetic(operation: Operation, a: f64, b: f64) -> f64 {
    match operation {
        Operation::Add => a + b,
        Operation::Subtract => a - b,
        Operation::Multiply => a * b,
        Operation::Divide => a / b,
        Operation::Remainder => a.rem_euclid(b),
        Operation::Power => a.powf(b),
    }
}

/// A host for the tests: real floating point, a silent console, and a
/// command runner that knows `echo -n`.
fn execute(source: &str, budget: usize) -> Run {
    let mut output = Vec::new();
    let mut lexer = Lexer::new(String::from(source));
    let tokens = match lexer.scan_tokens() {
        Ok(tokens) => tokens,
        Err(mut errors) => return Run { result: Err(errors.remove(0)), output },
    };
    let mut parser = Parser::new(tokens);
    let statements = match parser.parse() {
        Ok(statements) => statements,
        Err(mut errors) => return Run { result: Err(errors.remove(0)), output },
    };
    let mut interpreter = Interpreter::new();
    let mut action = interpreter.interpret(&statements, budget);
    loop {
        let event = match action {
            Action::Finished(text) => return Run { result: Ok(text), output },
            Action::Failed(error) => return Run { result: Err(error), output },
            Action::Paused => Event::Resume,
            Action::ParseNumber(text) => Event::Number(text.parse::<f64>().unwrap().to_bits()),
            Action::Arithmetic(operation, a, b) => Event::Number(
                arithmetic(operation, f64::from_bits(a), f64::from_bits(b)).to_bits(),
            ),
            Action::RenderNumber(bits) => Event::Text(format!("{}", f64::from_bits(bits))),
            Action::FromInteger(n) => Event::Number((n as f64).to_bits()),
            Action::Output(text) => {
                output.push(text);
                Event::Resume
            }
            Action::Ask(_) => Event::Text(String::from("typed")),
            Action::Time => Event::Number(1.5e18_f64.to_bits()),
            Action::Command { program, arguments } => {
                if program == "echo" && arguments.first().map(|a| a.as_str()) == Some("-n") {
                    Event::Text(arguments[1..].join(" "))
                } else {
                    Event::Text(String::new())
                }
            }
        };
        action = interpreter.resume(event, budget);
    }
}

fn ev(source: &str) -> String {
    match execute(source, 1000).result {
        Ok(result) => result,
        Err(_) => String::from("err"),
    }
}

fn failure(source: &str) -> String {
    match execute(source, 1000).result {
        Ok(result) => panic!("no error, but `{}`", result),
        Err(error) => report_error(error),
    }
}

fn has_lexical_error(source: &str) -> bool {
    let mut lexer = Lexer::new(String::from(source));
    lexer.scan_tokens().is_err()
}

fn has_parsing_error(source: &str) -> bool {
    let mut lexer = Lexer::new(String::from(source));
    let tokens = lexer.scan_tokens().unwrap();
    let mut parser = Parser::new(tokens);
    parser.parse().is_err()
}

#[test]
fn lexical_error() {
    assert!(has_lexical_error("something;"));
}

#[test]
fn comments() {
    assert_eq!("", ev("// this is a comment"));
    assert_eq!("", ev("/* this is a comment */"));
    assert_eq!(
        "",
        ev("/*
	now multiline
	*/")
    );

    assert!(has_lexical_error("/* this is an unterminated comment"));
}

#[test]
fn math_expressions() {
    assert_eq!("2", ev("1+1"));
    assert_eq!("6", ev("2*3"));
    assert_eq!("6", ev("3*2"));
    assert_eq!("2", ev("1 +            1"));
    assert_eq!("0", ev("1+ -1"));
    assert_eq!("0", ev("1  -1"));
    assert_eq!("0", ev("-1 - -1"));
    assert_eq!("3", ev("3 % 5"));
    assert_eq!("2", ev("7  %5"));
    assert_eq!("2", ev("-3 % 5"));
    assert_eq!("8", ev("2^3"));
    assert_eq!("7", ev("1 + 2 * 3"));
    assert_eq!("9", ev("(1 + 2) * 3"));
    assert_eq!("3", ev("9 / 3"));
    assert_eq!("2.5", ev("5/2"));
    assert_eq!("3", ev("((((((((3))))))))"));
    assert_eq!("4", ev("((((((((3)))))) + 1))"));

    assert_eq!("err", ev("((((((((3)))))))"));
    assert_eq!("err", ev("5/"));
    assert_eq!("err", ev(r#"5/"string""#));
    assert_eq!("err", ev("-true"));
    assert_eq!("err", ev("1 + true"));
    assert_eq!("err", ev("true - 3"));
    assert_eq!("err", ev("false * 4"));
    assert_eq!("err", ev("true / 9"));
    assert_eq!("err", ev("8 % false"));
    assert_eq!("err", ev("-3 ^ true"));
    assert_eq!("err", ev("-true"));
    assert_eq!("err", ev("-true"));
    assert_eq!("err", ev("-true"));
}

#[test]
fn test_math_expressions() {
    assert_eq!("2", ev("1+1"));
    assert_eq!("6", ev("2*3"));
    assert_eq!("6", ev("3*2"));
    assert_eq!("2", ev("1 +            1"));
    assert_eq!("0", ev("1+ -1"));
    assert_eq!("0", ev("1  -1"));
    assert_eq!("0", ev("-1 - -1"));
    assert_eq!("3", ev("3 % 5"));
    assert_eq!("2", ev("7  %5"));
    assert_eq!("2", ev("-3 % 5"));
    assert_eq!("8", ev("2^3"));
    assert_eq!("7", ev("1 + 2 * 3"));
    assert_eq!("9", ev("(1 + 2) * 3"));
    assert_eq!("3", ev("9 / 3"));
    assert_eq!("2.5", ev("5/2"));
    assert_eq!("3", ev("((((((((3))))))))"));
    assert_eq!("4", ev("((((((((3)))))) + 1))"));

    assert_eq!("err", ev("((((((((3)))))))"));
    assert_eq!("err", ev("5/"));
    assert_eq!("err", ev(r#"5/"string""#));
    assert_eq!("err", ev("-true"));
    assert_eq!("err", ev("1 + true"));
    assert_eq!("err", ev("true - 3"));
    assert_eq!("err", ev("false * 4"));
    assert_eq!("err", ev("true / 9"));
    assert_eq!("err", ev("8 % false"));
    assert_eq!("err", ev("-3 ^ true"));
    assert_eq!("err", ev("-true"));
    assert_eq!("err", ev("-true"));
    assert_eq!("err", ev("-true"));
}

#[test]
fn boolean_expressions() {
    assert_eq!("true", ev("true"));
    assert_eq!("false", ev("false"));
    assert_eq!("false", ev("!true"));
    assert_eq!("false", ev("true == false"));
    assert_eq!("false", ev("true != true"));
    assert_eq!("false", ev("1 == 2"));
    assert_eq!("false", ev("1 != 1"));
    assert_eq!("false", ev(r#""string" == "other string""#));
    assert_eq!("false", ev(r#""string" != "string""#));
    assert_eq!("false", ev("1 == true"));
    assert_eq!("false", ev("true == 3"));
    assert_eq!("false", ev(r#""test"== true"#));
    assert_eq!("true", ev("1 != true"));
    assert_eq!("true", ev("true != 3"));
    assert_eq!("true", ev(r#""test"!= true"#));
    assert_eq!("false", ev("1 < -1"));
    assert_eq!("false", ev("-1 > 1"));
    assert_eq!("false", ev("2 ^ (2 * 1) < -0"));
    assert_eq!("false", ev("-10 >= -9"));
    assert_eq!("true", ev("-10 >= -10"));
    assert_eq!("true", ev("-10 <= -9"));
    assert_eq!("true", ev("-10 <= -10"));
    assert_eq!("true", ev("true and true"));
    assert_eq!("false", ev("true and false"));
    assert_eq!("false", ev("false and true"));
    assert_eq!("false", ev("false and false"));
    assert_eq!("true", ev("true or true"));
    assert_eq!("true", ev("true or false"));
    assert_eq!("true", ev("false or true"));
    assert_eq!("false", ev("false or false"));
    assert_eq!("false", ev("1 and 2"));
    assert_eq!("true", ev("-1 or true"));
    assert_eq!("false", ev(r#""string" and 123"#));
    assert_eq!("false", ev("false or false and true"));
    assert_eq!("true", ev("true and (false or true)"));
    assert_eq!(
        "true",
        ev("a = true
	a == false or a == true")
    );
    assert_eq!("true", ev("empty == empty"));
    assert_eq!("false", ev("empty != empty"));
    assert_eq!("false", ev("empty == 3"));
    assert_eq!("true", ev("empty != 3"));
    assert_eq!("false", ev("empty == true"));
    assert_eq!("true", ev("empty != false"));
    assert_eq!(
        "true",
        ev("b = empty(boolean)
		empty == b")
    );
    assert_eq!(
        "false",
        ev("b = empty(boolean)
		empty != b")
    );
    assert_eq!(
        "true",
        ev("n = empty(number)
		empty == n")
    );
    assert_eq!(
        "false",
        ev("n = empty(number)
		empty != n")
    );
    assert_eq!("true", ev("(empty == empty)"));
    assert_eq!("false", ev("(empty != empty)"));
    assert_eq!("true", ev("(empty == 3) == (3 == empty)"));
    assert_eq!("true", ev("(empty != 3) == (3 != empty)"));
    assert_eq!("true", ev("(empty == true) == (true == empty)"));
    assert_eq!("true", ev("(empty != false) == (false != empty)"));
    assert_eq!(
        "true",
        ev("b = empty(boolean)
		(empty == b) == (b == empty)")
    );
    assert_eq!(
        "true",
        ev("b = empty(boolean)
		(empty != b) == (b != empty)")
    );
    assert_eq!(
        "true",
        ev("n = empty(number)
		(empty == n) == (n == empty)")
    );
    assert_eq!(
        "true",
        ev("n = empty(number)
		(empty != n) == (n != empty)")
    );
    assert_eq!(
        "false",
        ev("b = empty(boolean)
		d = empty(number)
		d == b")
    );

    assert_eq!("err", ev("!4"));
    assert_eq!("err", ev("3 < true"));
    assert_eq!("err", ev(r#"true >= "test""#));
    assert_eq!("err", ev(r#"true * true"#));
}

#[test]
fn test_boolean_expressions() {
    assert_eq!("true", ev("true"));
    assert_eq!("false", ev("false"));
    assert_eq!("false", ev("!true"));
    assert_eq!("false", ev("true == false"));
    assert_eq!("false", ev("true != true"));
    assert_eq!("false", ev("1 == 2"));
    assert_eq!("false", ev("1 != 1"));
    assert_eq!("false", ev(r#""string" == "other string""#));
    assert_eq!("false", ev(r#""string" != "string""#));
    assert_eq!("false", ev("1 < -1"));
    assert_eq!("false", ev("-1 > 1"));
    assert_eq!("false", ev("2 ^ (2 * 1) < -0"));
    assert_eq!("false", ev("-10 >= -9"));
    assert_eq!("true", ev("-10 >= -10"));
    assert_eq!("true", ev("-10 <= -9"));
    assert_eq!("true", ev("-10 <= -10"));

    // equality is defined between values of any two types
    assert_eq!("false", ev("1 == true"));
    assert_eq!("false", ev("true == 3"));
    assert_eq!("false", ev(r#""test"== true"#));
    assert_eq!("true", ev("1 != true"));
    assert_eq!("true", ev("true != 3"));
    assert_eq!("true", ev(r#""test"!= true"#));
    assert_eq!("err", ev("!4"));
    assert_eq!("err", ev("3 < true"));
    assert_eq!("err", ev(r#"true >= "test""#));
    assert_eq!("err", ev(r#"true * true"#));
}

#[test]
fn string_expressions() {
    assert_eq!("hello world", ev(r#""hello world""#));
    assert_eq!("hello world", ev(r#""hello " + "world""#));
    assert_eq!("hello hello hello ", ev(r#""hello " * 3"#));
    assert_eq!("hello ", ev(r#""hello " * 1"#));
    assert_eq!("", ev(r#""hello " * 0"#));
    assert_eq!(
        "multiline
	string",
        ev(r#""multiline
	string""#)
    );

    assert_eq!("err", ev(r#""hello " * "world""#));
    assert_eq!("err", ev(r#""hello " * 3.1"#));
    assert_eq!("err", ev(r#""hello " * -2"#));
    assert_eq!("err", ev(r#""hello " * true"#));
    assert_eq!("err", ev(r#""hello " + true"#));
    assert_eq!("err", ev(r#""hello " + 3"#));
    assert_eq!(true, has_lexical_error(r#""unterminated string"#));
}

#[test]
fn test_string_expressions() {
    assert_eq!("hello world", ev(r#""hello world""#));
    assert_eq!("hello world", ev(r#""hello " + "world""#));
    assert_eq!("hello hello hello ", ev(r#""hello " * 3"#));
    assert_eq!("hello ", ev(r#""hello " * 1"#));
    assert_eq!("", ev(r#""hello " * 0"#));

    assert_eq!("err", ev(r#""hello " * "world""#));
    assert_eq!("err", ev(r#""hello " * 3.1"#));
    assert_eq!("err", ev(r#""hello " * -2"#));
    assert_eq!("err", ev(r#""hello " * true"#));
}

#[test]
fn output_statement() {
    assert_eq!("", ev(r#"out("output")"#))
}

#[test]
fn native_functions() {
    // Output (`out`)
    assert_eq!("", ev(r#"out("output")"#));
    assert_eq!(
        "1",
        ev(r#"out("output")
	1"#)
    );

    assert!(has_parsing_error(r#"out("something""#));
    assert!(has_parsing_error(r#"out("something") 1 + 1"#));
    assert!(has_parsing_error(
        "out(3
		
		out(4
		out(54)"
    ));

    // Size (`size`)
    assert_eq!("11", ev(r#"size("hello world")"#));
    assert_eq!("0", ev("size(3)"));
    assert_eq!("0", ev("size(true)"));

    // Command execution (`cmd`)
    assert_eq!("hello world", ev(r#"cmd("echo -n hello world")"#));
    assert_eq!("", ev(r#"cmd("")"#));
    assert_eq!("", ev("cmd(4)"));

    // Equality
    assert_eq!(
        "true",
        ev("a = ask
			b = ask
			b == a")
    );
    assert_eq!(
        "false",
        ev("a = ask
			b = out
			b == a")
    );
    assert_eq!("true", ev("time != 3"));

    // Display
    assert_eq!("f time(0 arguments) { [native code] }", ev("time"));
    assert_eq!("f out(1 argument) { [native code] }", ev("out"));
}

#[test]
fn functions() {
    assert_eq!(
        "",
        ev("f triple(n) {
				n * 3
			}")
    );
    assert_eq!(
        "",
        ev("n = 2
			f triple(n) {
				n * 3
			}")
    );
    assert_eq!(
        "5",
        ev("n = 5
			f count(n) {
				if (n > 1) {
					count(n - 1)
				}
				out(n)
			}
			count(3)
			n")
    );
    assert_eq!(
        "3",
        ev("n = 5
			a = 0
			f count(n) {
				if (n > 1) {
					count(n - 1)
					a = n
				}
				out(n)
			}
			count(3)
			a")
    );
    assert_eq!(
        "f sum(2 arguments) {}",
        ev("f sum(a, b) {
			}
			sum")
    );

    assert_eq!("err", ev("3()"));
    assert_eq!("err", ev(r#""hello"()"#));
    assert_eq!("err", ev("time(3)"));
    assert_eq!("err", ev("out()"));
    assert_eq!("err", ev("time()()"));
    has_parsing_error(
        "f test(f) {
	}",
    );
}

#[test]
fn global_variables() {
    assert_eq!(
        "hello world",
        ev(r#"var1 = "hello "
			secnd_var = "world"
			var1 + secnd_var"#)
    );
    assert_eq!(
        "hello world",
        ev(r#"var1 = "hello "
			secnd_var = "world"
			var3 = var1 + secnd_var
			var3"#)
    );
    assert_eq!(
        "redefinition",
        ev(r#"var1 = "hello "
			secnd_var = "world"
			var1 = "redefinition"
			var1"#)
    );
    assert_eq!(
        "8",
        ev("firstVar = 3
			2^ firstVar")
    );
    assert_eq!(
        "2",
        ev("var = 3
			2^((var + 1) / 4)")
    );
    assert_eq!(
        "true",
        ev("firstVar = false
			!firstVar != firstVar")
    );
    assert_eq!(
        "hello world",
        ev(r#"
		
		var1 = "hello "

		varTWO="world"

		var1+varTWO
		
		"#)
    );

    assert_eq!(
        "err",
        ev(r#"var1 = "hello "
			var3"#)
    );
    assert_eq!(
        "err",
        ev(r#"var1 = "hello "
			secnd_var = "world"
			var1 = true"#)
    );
}

#[test]
fn empty_variables() {
    assert_eq!(
        "",
        ev("var = empty(number)
			var")
    );
    assert_eq!(
        "",
        ev("var = empty(boolean)
			var")
    );
    assert_eq!(
        "3",
        ev("var = empty(number)
			var = 3
			var")
    );
    assert_eq!(
        "false",
        ev("var = empty(boolean)
			var = true
			var == false")
    );
    assert_eq!(
        "",
        ev("var = empty(boolean)
			var = true
			var = empty
			var")
    );
    assert_eq!(
        "",
        ev("var = empty(number)
			var = 43
			var = empty
			var")
    );
    assert_eq!(
        "false",
        ev("var = empty(number)
			var == 3")
    );
    assert_eq!(
        "false",
        ev("var = empty(boolean)
			var2 = false
			var == var2")
    );
    assert_eq!(
        "true",
        ev("var = empty(number)
			var != 3")
    );
    assert_eq!(
        "true",
        ev("var = empty(boolean)
			var2 = false
			var != var2")
    );

    assert_eq!("err", ev("var = empty"));
    assert!(has_parsing_error("var = empty("));
    assert!(has_parsing_error("var = empty(test)"));
    assert!(has_parsing_error("var = empty(number"));
    assert!(has_parsing_error("var = empty(string)"));
}

#[test]
fn block_statements() {
    assert_eq!(
        "",
        ev("{
		a = 2
	}")
    );
    assert_eq!(
        "8",
        ev("a = 4
	{
		a = a * 2
	}
	a")
    );
    assert_eq!(
        "16",
        ev("a = 2
	{
		a = a* 2
		{
			a = a *2
			{
				a = a*2
			}
		}
	}
	a")
    );
    assert_eq!(
        "err",
        ev("a = 2
	{
		a = a* 2
		{
			b = 3
			a = a *2
			{
				a = a*2
			}
		}
		out(b)
	}
	a")
    );

    assert!(has_parsing_error("{}"));
    assert!(has_parsing_error(
        "{out(a)
	}"
    ));
}

#[test]
fn if_statements() {
    assert_eq!(
        "1",
        ev("a = 0
		if true {
			a = 1
		} else {
			a = 2
		}
		a")
    );
    assert_eq!(
        "0",
        ev("a = 2
		b = empty(number)
		if a == 3 {
			b = 1
		} else {
			b = 0
		}
		b")
    );
    assert_eq!(
        "1",
        ev("a = 2
		b = empty(number)


		if a == 2 {

			b = 1
		}
		
		
		else {
			b = 0

		}

		b")
    );
    assert_eq!(
        "-1",
        ev("a = 1
		b = empty(number)
		if a == 3 {
			b = 1
		} else if a == 2 {
			b = 0
		} else {
			b = -1
		}
		b")
    );

    assert_eq!(
        "err",
        ev("a = 2
		b = empty(number)
	if a {
		b = 1
	} else {
		b = 0
	}
	b")
    );
    assert!(has_parsing_error("if true out(4)"));
    assert!(has_parsing_error(
        "if true {
		out(4)
	} else out(5)"
    ));
}

#[test]
fn while_statements() {
    assert_eq!(
        "-151",
        ev("i = 0
		while i >= -150 {
			i = i - 1
		}
		i")
    );
    assert_eq!(
        "25",
        ev("a = 0
		i = 0
		while i < 10 {
			temp = a + 1
			a = temp
			if a == 5 {
				a = a * 2
			}
			i =  i+ 1
		}
		a + i")
    );

    assert!(has_parsing_error("while true out(4)"));
}

#[test]
fn counts_down_and_writes() {
    let run = execute(
        "n = 5\nf count(n) { \nif (n > 1) { \ncount(n - 1) \n}\n out(n)\n }\ncount(3)\nn",
        1000,
    );
    assert_eq!(run.result.ok(), Some(String::from("5")));
    assert_eq!(run.output, vec!["1", "2", "3"]);
}

#[test]
fn nested_blocks_assign_outer_names() {
    assert_eq!("8", ev("a = 2\n{\n a = a * 2\n {\n a = a * 2 \n}\n }\na"));
}

#[test]
fn typed_hole_differs_from_a_number() {
    assert_eq!("false", ev("var = empty(number)\nvar == 3"));
}

#[test]
fn a_small_budget_only_pauses_more_often() {
    let source = "i = 0\nwhile i >= -150 {\n i = i - 1\n }\ni";
    assert_eq!(execute(source, 0).result.ok(), Some(String::from("-151")));
    assert_eq!(execute(source, 7).result.ok(), Some(String::from("-151")));
}

#[test]
fn names_of_a_block_end_with_it() {
    assert_eq!(
        "Runtime error at line 4, column 1: Undefined symbol `b`.",
        failure("{\nb = 3\n}\nb")
    );
    assert_eq!("3", ev("b = 1\n{\nb = 3\n}\nb"));
}

#[test]
fn return_leaves_every_block_of_the_call() {
    let source = "f pick(n) {\n if n > 1 {\n if n > 2 {\n return \"big\"\n }\n return \"medium\"\n }\n return \"small\"\n}\n";
    assert_eq!("big", ev(&format!("{}pick(3)", source)));
    assert_eq!("medium", ev(&format!("{}pick(2)", source)));
    assert_eq!("small", ev(&format!("{}pick(1)", source)));
    // the scopes of the blocks that were left are gone
    assert_eq!("7", ev(&format!("x = 7\n{}pick(3)\nx", source)));
    assert_eq!(
        "err",
        ev("f g() {\n if true {\n inner = 1\n return inner\n }\n}\ng()\ninner")
    );
}

#[test]
fn a_function_without_return_gives_empty() {
    assert_eq!("", ev("f nothing() {\n 1 + 1\n}\nnothing()"));
    assert_eq!("true", ev("f nothing() {\n}\nnothing() == empty"));
    assert_eq!(
        "Runtime error at line 3, column 1: Variable `x` cannot be initialized as `empty`, type must be specified.",
        failure("f nothing() {\n}\nx = nothing()")
    );
}

#[test]
fn return_outside_a_function_is_an_error() {
    assert_eq!(
        "Runtime error at line 1, column 8: Illegal use of `return` outside of a function.",
        failure("return 3")
    );
    assert_eq!("err", ev("{\nreturn 3\n}"));
}

#[test]
fn wrong_number_of_arguments() {
    assert_eq!(
        "Type error at line 1, column 7: Expected 0 arguments, but found 1.",
        failure("time(3)")
    );
    assert_eq!(
        "Type error at line 1, column 5: Expected 1 argument, but found 0.",
        failure("out()")
    );
    assert_eq!(
        "Type error at line 3, column 12: Expected 2 arguments, but found 3.",
        failure("f sum(a, b) {\n}\nsum(1, 2, 3)")
    );
}

#[test]
fn and_or_stop_at_the_first_operand_that_decides() {
    let run = execute("false and out(1) == empty", 1000);
    assert_eq!(run.result.ok(), Some(String::from("false")));
    assert!(run.output.is_empty());
    let run = execute("true or out(1) == empty", 1000);
    assert_eq!(run.result.ok(), Some(String::from("true")));
    assert!(run.output.is_empty());
    let run = execute("true and out(1) == empty", 1000);
    assert_eq!(run.result.ok(), Some(String::from("true")));
    assert_eq!(run.output, vec!["1"]);
    let run = execute("false or out(2) == empty", 1000);
    assert_eq!(run.result.ok(), Some(String::from("true")));
    assert_eq!(run.output, vec!["2"]);
}

#[test]
fn a_value_equals_itself() {
    assert_eq!("true", ev("true == true"));
    assert_eq!("false", ev("true != true"));
    assert_eq!("true", ev("2.5 == 2.5"));
    assert_eq!("false", ev("2.5 != 2.5"));
    assert_eq!("true", ev("\"a\" == \"a\""));
    assert_eq!("false", ev("\"a\" != \"a\""));
    assert_eq!("true", ev("0 == -0"));
    // not a number is no value that equals itself
    assert_eq!("false", ev("n = 0 / 0\nn == n"));
}

#[test]
fn division_by_zero_is_no_error() {
    assert_eq!("inf", ev("1 / 0"));
    assert_eq!("-inf", ev("-1 / 0"));
    assert_eq!("NaN", ev("0 / 0"));
    assert_eq!("true", ev("1 / 0 > 1000000"));
    assert_eq!("false", ev("0 / 0 < 1"));
    assert_eq!("false", ev("0 / 0 >= 1"));
    assert_eq!("err", ev("\"a\" * (0 / 0)"));
    assert_eq!("err", ev("\"a\" * (-1 / 0)"));
}

#[test]
fn calls_nest_as_deep_as_memory_allows() {
    let source = "f down(n) {\n if n > 0 {\n return down(n - 1)\n }\n return \"bottom\"\n}\ndown(5000)";
    assert_eq!("bottom", ev(source));
}

#[test]
fn a_function_sees_the_names_of_its_callers() {
    assert_eq!(
        "5",
        ev("f inner() {\n return x\n}\nf outer() {\n x = 5\n return inner()\n}\nouter()")
    );
    assert_eq!("err", ev("f outer() {\n x = 5\n}\nouter()\nx"));
    // a parameter is a name of its own
    assert_eq!("5", ev("n = 5\nf g(n) {\n n = n + 1\n return n\n}\ng(1)\nn"));
    assert_eq!("2", ev("n = 5\nf g(n) {\n n = n + 1\n return n\n}\ng(1)"));
    assert_eq!("b", ev("f g(a, a) {\n return a\n}\ng(\"a\", \"b\")"));
}

#[test]
fn operands_of_the_wrong_type_are_a_type_error() {
    for source in [
        "5 / \"string\"",
        "1 + true",
        "true - 3",
        "\"hello \" + 3",
        "\"hello \" + true",
        "\"hello \" - \"world\"",
        "\"hello \" * \"world\"",
        "\"hello \" / 2",
        "\"hello \" * true",
        "3 * \"hello\"",
        "true ^ false",
    ] {
        assert!(failure(source).starts_with("Type error at line 1, column "), "{source}");
    }
    // a count that is negative or not whole is of the right type
    for source in ["\"hello \" * -2", "\"hello \" * 3.1"] {
        assert!(failure(source).starts_with("Runtime error at line 1, column "), "{source}");
    }
}

#[test]
fn typed_holes() {
    assert_eq!("true", ev("a = empty(number)\nb = empty(number)\na == b"));
    assert_eq!("true", ev("a = empty(boolean)\nb = empty(boolean)\na == b"));
    assert_eq!("false", ev("a = empty(boolean)\nb = empty(number)\na == b"));
    assert_eq!("true", ev("a = empty(boolean)\na == empty"));
    assert_eq!("true", ev("a = empty(number)\nempty == a"));
}

#[test]
fn error_messages() {
    assert_eq!(
        "Type error at line 1, column 1: Unary not (`!`) must be applied to a boolean (found `4`).",
        failure("!4")
    );
    assert_eq!(
        "Type error at line 1, column 1: Unary minus (`-`) must be applied to a number (found `true`).",
        failure("-true")
    );
    assert_eq!(
        "Type error at line 1, column 3: Comparison can only be performed between two numbers (found `3` and `true`).",
        failure("3 < true")
    );
    assert_eq!(
        "Type error at line 1, column 5: Addition (`+`) can only be performed between two numbers or two strings (found `2.5` and `true`).",
        failure("2.5 + true")
    );
    assert_eq!(
        "Type error at line 1, column 6: Multiplication (`*`) can only be performed between two numbers or a string and a number (found `true` and `true`).",
        failure("true * true")
    );
    assert_eq!(
        "Runtime error at line 1, column 10: Multiplication (`*`) between a string and a number requires a positive integer (found `3.1`).",
        failure("\"hello \" * 3.1")
    );
    assert_eq!(
        "Type error at line 1, column 5: Only addition (`+`) can be used between two strings.",
        failure("\"a\" - \"b\"")
    );
    assert_eq!(
        "Type error at line 1, column 5: Only multiplication (`*`) can be used between a string and a number.",
        failure("\"a\" + 3")
    );
    assert_eq!(
        "Type error at line 2, column 1: Variable `a` already exists, but has a different type (tried to replace `1.5` with `text`).",
        failure("a = 1.5\na = \"text\"")
    );
    assert_eq!(
        "Type error at line 1, column 3: Expression not callable.",
        failure("3()")
    );
    assert_eq!(
        "Type error at line 1, column 4: Condition of `if` statement should be a boolean expression.",
        failure("if 3 {\n}")
    );
    assert_eq!(
        "Type error at line 1, column 7: Condition of `while` statement should be a boolean expression.",
        failure("while \"x\" {\n}")
    );
    assert_eq!(
        "Type error at line 3, column 3: Identifier `g` has already been declared.",
        failure("f g() {\n}\nf g(a) {\n}")
    );
    assert_eq!(
        "Type error at line 1, column 3: Identifier `time` has already been declared.",
        failure("f time() {\n}")
    );
    assert_eq!(
        "Syntax error at line 1, column 3: Unexpected token ``.",
        failure("5/")
    );
    assert_eq!(
        "Lexical error at line 1, column 10: Unexpected character `;`.",
        failure("something;")
    );
}

#[test]
fn empty_is_assigned_by_type() {
    assert_eq!("err", ev("s = \"text\"\ns = empty"));
    assert_eq!("", ev("n = empty(number)\nn = empty\nn"));
    assert_eq!("err", ev("f g(a) {\n}\ng(empty)"));
}

#[test]
fn natives_with_the_wrong_argument_write_a_note() {
    let run = execute("ask(3)", 1000);
    assert_eq!(run.result.ok(), Some(String::new()));
    assert_eq!(run.output, vec!["error: `ask` can only take a string as argument"]);
    let run = execute("size(3)", 1000);
    assert_eq!(run.result.ok(), Some(String::from("0")));
    assert_eq!(run.output, vec!["error: `size` can only take a string as argument"]);
    let run = execute("cmd(true)", 1000);
    assert_eq!(run.output, vec!["error: `cmd` can only take a string as argument"]);
    assert_eq!("typed", ev("ask(\"name? \")"));
    assert_eq!("", ev("cmd(\"  \t \")"));
    assert_eq!("a b", ev("cmd(\" echo   -n a\tb \")"));
    assert_eq!("1500000000000000000", ev("time()"));
}

#[test]
fn values_are_shown() {
    let run = execute("out(1 / 3)\nout(-0)\nout(true)\nout(out)\nout(empty)\nout(\"s\")", 1000);
    assert_eq!(
        run.output,
        vec!["0.3333333333333333", "0", "true", "f out(1 argument) { [native code] }", "", "s"]
    );
    assert_eq!("f one(1 argument) {}", ev("f one(a) {\n}\none"));
    assert_eq!("f none(0 arguments) {}", ev("f none() {\n}\nnone"));
}

#[test]
fn a_wrong_reply_ends_the_evaluation() {
    let mut lexer = Lexer::new(String::from("1 + 1"));
    let mut parser = Parser::new(lexer.scan_tokens().unwrap());
    let statements = parser.parse().unwrap();
    let mut interpreter = Interpreter::new();
    let action = interpreter.interpret(&statements, 100);
    assert!(matches!(action, Action::ParseNumber(ref text) if text == "1"));
    match interpreter.resume(Event::Text(String::from("one")), 100) {
        Action::Failed(error) => {
            assert_eq!(error.error_type(), ErrorType::RuntimeError);
            assert_eq!(error.message(), "The host's reply does not answer the request");
        }
        other => panic!("{:?}", other),
    }
    assert!(matches!(interpreter.resume(Event::Resume, 100), Action::Finished(ref text) if text.is_empty()));
}
