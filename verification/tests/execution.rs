//! Runs emitted programs on a small model of the processor: the registers, the flags of
//! the last comparison and a stack.

use std::collections::HashMap;

use minicc::{parse, ASTNode, Keyword, Literal, Token, VarMap};

struct Machine {
    registers: HashMap<String, i64>,
    memory: HashMap<i64, i64>,
    compared: (i64, i64),
}

const HALT: i64 = -1;

impl Machine {
    fn new() -> Machine {
        let mut registers = HashMap::new();
        for name in ["rax", "rbx", "rcx", "rdx", "rbp", "r12", "r13", "r14", "r15"] {
            registers.insert(String::from(name), 0);
        }
        registers.insert(String::from("rsp"), 1 << 20);
        Machine { registers, memory: HashMap::new(), compared: (0, 0) }
    }

    fn register(&self, name: &str) -> i64 {
        match self.registers.get(name) {
            Some(value) => *value,
            None => panic!("no register {:?}", name),
        }
    }

    fn set(&mut self, name: &str, value: i64) {
        assert!(self.registers.contains_key(name), "no register {:?}", name);
        self.registers.insert(String::from(name), value);
    }

    /// The address of an operand of the form `[rbp - n]`.
    fn address(&self, operand: &str) -> Option<i64> {
        let inner = operand.strip_prefix("[rbp - ")?.strip_suffix("]")?;
        let offset: i64 = inner.parse().unwrap();
        Some(self.register("rbp") - offset)
    }

    fn value(&self, operand: &str) -> i64 {
        if let Some(address) = self.address(operand) {
            return *self.memory.get(&address).unwrap_or(&0);
        }
        match operand.parse::<i64>() {
            Ok(number) => number,
            Err(_) => self.register(operand),
        }
    }

    fn push(&mut self, value: i64) {
        let top = self.register("rsp") - 8;
        self.set("rsp", top);
        self.memory.insert(top, value);
    }

    fn pop(&mut self) -> i64 {
        let top = self.register("rsp");
        self.set("rsp", top + 8);
        *self.memory.get(&top).unwrap()
    }

    fn flag(&self, condition: &str) -> bool {
        let (left, right) = self.compared;
        match condition {
            "e" => left == right,
            "ne" => left != right,
            "l" => left < right,
            "le" => left <= right,
            "g" => left > right,
            "ge" => left >= right,
            _ => panic!("no condition {:?}", condition),
        }
    }

    /// Calls the function `name` of the program and gives what it leaves in `rax`.
    fn call(&mut self, text: &str, name: &str) -> i64 {
        let lines: Vec<&str> = text.split('\n').map(|line| line.trim()).collect();
        let mut targets: HashMap<&str, usize> = HashMap::new();
        for (at, line) in lines.iter().enumerate() {
            if let Some(label) = line.strip_suffix(":") {
                assert!(targets.insert(label, at).is_none(), "label {:?} occurs twice", label);
            }
        }
        assert!(lines.contains(&format!("global {}", name).as_str()));
        let mut at = targets[name];
        self.push(HALT);
        let mut steps = 0;
        loop {
            steps += 1;
            assert!(steps < 100_000, "the program does not end");
            let line = lines[at];
            at += 1;
            if line.is_empty() || line.ends_with(":") || line.starts_with("global ") {
                continue;
            }
            let (operation, operands) = match line.split_once(' ') {
                Some((operation, operands)) => (operation, operands),
                None => (line, ""),
            };
            let operands: Vec<&str> = operands.split(", ").collect();
            match operation {
                "mov" => {
                    let value = self.value(operands[1]);
                    match self.address(operands[0]) {
                        Some(address) => {
                            self.memory.insert(address, value);
                        }
                        None => self.set(operands[0], value),
                    }
                }
                "push" => {
                    let value = self.value(operands[0]);
                    self.push(value);
                }
                "pop" => {
                    let value = self.pop();
                    self.set(operands[0], value);
                }
                "add" | "sub" | "imul" | "and" | "or" | "xor" => {
                    let (left, right) = (self.value(operands[0]), self.value(operands[1]));
                    let value = match operation {
                        "add" => left.wrapping_add(right),
                        "sub" => left.wrapping_sub(right),
                        "imul" => left.wrapping_mul(right),
                        "and" => left & right,
                        "or" => left | right,
                        _ => left ^ right,
                    };
                    self.set(operands[0], value);
                }
                "neg" => {
                    let value = self.value(operands[0]).wrapping_neg();
                    self.set(operands[0], value);
                }
                "not" => {
                    let value = !self.value(operands[0]);
                    self.set(operands[0], value);
                }
                "cmp" => {
                    self.compared = (self.value(operands[0]), self.value(operands[1]));
                }
                "cqo" => {
                    let sign = if self.register("rax") < 0 { -1 } else { 0 };
                    self.set("rdx", sign);
                }
                "idiv" => {
                    // The dividend is the pair rdx:rax, which `cqo` made from rax alone.
                    let dividend = self.register("rax");
                    assert_eq!(self.register("rdx"), if dividend < 0 { -1 } else { 0 });
                    let divisor = self.value(operands[0]);
                    self.set("rax", dividend.wrapping_div(divisor));
                    self.set("rdx", dividend.wrapping_rem(divisor));
                }
                "jmp" => at = targets[operands[0]],
                "ret" => {
                    let target = self.pop();
                    assert_eq!(target, HALT);
                    return self.register("rax");
                }
                _ => {
                    if let Some(condition) = operation.strip_prefix("set") {
                        assert_eq!(operands[0], "al");
                        let rest = self.register("rax") & !0xff;
                        let bit = if self.flag(condition) { 1 } else { 0 };
                        self.set("rax", rest | bit);
                    } else if let Some(condition) = operation.strip_prefix("j") {
                        if self.flag(condition) {
                            at = targets[operands[0]];
                        }
                    } else {
                        panic!("no instruction {:?}", line);
                    }
                }
            }
        }
    }
}

fn number(i: u32) -> Token {
    Token::Literal(Literal::Int(i))
}

fn ident(name: &str) -> Token {
    Token::Identifier(String::from(name))
}

fn declare(name: &str, value: Vec<Token>) -> Vec<Token> {
    let mut tokens = vec![Token::Keyword(Keyword::Int), ident(name), Token::Assign];
    tokens.extend(value);
    tokens.push(Token::Semicolon);
    tokens
}

fn returning(value: Vec<Token>) -> Vec<Token> {
    let mut tokens = vec![Token::Keyword(Keyword::Return)];
    tokens.extend(value);
    tokens.push(Token::Semicolon);
    tokens
}

/// Compiles `int main() { body }` and runs it. The caller's registers must come back.
fn run(body: Vec<Vec<Token>>) -> i64 {
    let mut tokens = vec![
        Token::Keyword(Keyword::Int),
        ident("main"),
        Token::OpenParenthesis,
        Token::CloseParenthesis,
        Token::OpenBrace,
    ];
    for statement in body {
        tokens.extend(statement);
    }
    tokens.push(Token::CloseBrace);
    let program = parse(tokens).unwrap();
    let (mut vmap, mut stack_index, mut labels) = (VarMap::new(), 0usize, 0usize);
    let text = program.emit(&mut vmap, &mut stack_index, &mut labels).unwrap();
    let mut machine = Machine::new();
    let saved = ["rbx", "rbp", "r12", "r13", "r14", "r15"];
    for (i, name) in saved.iter().enumerate() {
        machine.set(name, 1000 + i as i64);
    }
    let top = machine.register("rsp");
    let result = machine.call(&text, "main");
    for (i, name) in saved.iter().enumerate() {
        assert_eq!(machine.register(name), 1000 + i as i64);
    }
    assert_eq!(machine.register("rsp"), top);
    result
}

#[test]
fn false_left_operand_of_and_skips_the_assignment() {
    // int a = 0; int b = 1; a && (b = 2); return b;
    let result = run(vec![
        declare("a", vec![number(0)]),
        declare("b", vec![number(1)]),
        vec![
            ident("a"),
            Token::And,
            Token::OpenParenthesis,
            ident("b"),
            Token::Assign,
            number(2),
            Token::CloseParenthesis,
            Token::Semicolon,
        ],
        returning(vec![ident("b")]),
    ]);
    assert_eq!(result, 1);
}

#[test]
fn true_left_operand_of_or_skips_the_assignment() {
    // int a = 1; int b = 1; a || (b = 2); return b;
    let result = run(vec![
        declare("a", vec![number(1)]),
        declare("b", vec![number(1)]),
        vec![
            ident("a"),
            Token::Or,
            Token::OpenParenthesis,
            ident("b"),
            Token::Assign,
            number(2),
            Token::CloseParenthesis,
            Token::Semicolon,
        ],
        returning(vec![ident("b")]),
    ]);
    assert_eq!(result, 1);
}

#[test]
fn undecided_logical_operators_evaluate_the_assignment() {
    for (left, operator) in vec![(1, Token::And), (0, Token::Or)] {
        let result = run(vec![
            declare("a", vec![number(left)]),
            declare("b", vec![number(1)]),
            vec![
                ident("a"),
                operator,
                Token::OpenParenthesis,
                ident("b"),
                Token::Assign,
                number(2),
                Token::CloseParenthesis,
                Token::Semicolon,
            ],
            returning(vec![ident("b")]),
        ]);
        assert_eq!(result, 2);
    }
}

#[test]
fn or_with_a_true_left_operand_leaves_its_value() {
    // The right operand is skipped, and what the left operand left in rax stays there.
    let result = run(vec![returning(vec![number(5), Token::Or, number(0)])]);
    assert_eq!(result, 5);
    let result = run(vec![returning(vec![number(3), Token::Or, number(7)])]);
    assert_eq!(result, 3);
    // Where the right operand is evaluated, it is what is made 0 or 1.
    let result = run(vec![returning(vec![number(0), Token::Or, number(7)])]);
    assert_eq!(result, 1);
}

#[test]
fn logical_and_and_undecided_or_give_zero_or_one() {
    let cases = vec![
        (0, Token::And, 0, 0),
        (0, Token::And, 7, 0),
        (3, Token::And, 0, 0),
        (3, Token::And, 7, 1),
        (0, Token::Or, 0, 0),
        (0, Token::Or, 7, 1),
    ];
    for (left, operator, right, expected) in cases {
        let result = run(vec![returning(vec![number(left), operator, number(right)])]);
        assert_eq!(result, expected);
    }
}

#[test]
fn division_truncates_toward_zero() {
    // return 5 / -3;
    let result = run(vec![returning(vec![
        number(5),
        Token::Division,
        Token::Negative,
        number(3),
    ])]);
    assert_eq!(result, 5 / -3);
    assert_eq!(result, -1);
    let result = run(vec![returning(vec![
        Token::Negative,
        number(7),
        Token::Division,
        number(2),
    ])]);
    assert_eq!(result, -7 / 2);
    assert_eq!(result, -3);
}

#[test]
fn remainder_has_the_sign_of_the_dividend() {
    // int x = -5; x %= 3; return x;
    let result = run(vec![
        declare("x", vec![Token::Negative, number(5)]),
        vec![ident("x"), Token::AssignMod, number(3), Token::Semicolon],
        returning(vec![ident("x")]),
    ]);
    assert_eq!(result, -5 % 3);
    assert_eq!(result, -2);
    // int x = 5; x %= -3; return x;
    let result = run(vec![
        declare("x", vec![number(5)]),
        vec![ident("x"), Token::AssignMod, Token::Negative, number(3), Token::Semicolon],
        returning(vec![ident("x")]),
    ]);
    assert_eq!(result, 5 % -3);
    assert_eq!(result, 2);
}

#[test]
fn prefix_operators_compute() {
    let cases = vec![
        (vec![Token::Negative, number(5)], -5),
        (vec![Token::Negative, Token::Negative, number(5)], 5),
        (vec![Token::Complement, number(0)], -1),
        (vec![Token::Complement, number(5)], !5),
        (vec![Token::Negation, number(5)], 0),
        (vec![Token::Negation, number(0)], 1),
        (vec![Token::Negation, Token::Negation, number(9)], 1),
    ];
    for (tokens, expected) in cases {
        assert_eq!(run(vec![returning(tokens)]), expected);
    }
}

#[test]
fn arithmetic_follows_precedence() {
    let cases = vec![
        (vec![number(1), Token::Addition, number(2), Token::Multiplication, number(3)], 7),
        (
            vec![
                Token::OpenParenthesis,
                number(1),
                Token::Addition,
                number(2),
                Token::CloseParenthesis,
                Token::Multiplication,
                number(3),
            ],
            9,
        ),
        (vec![number(10), Token::Negative, number(4), Token::Negative, number(3)], 3),
        (vec![number(2), Token::Negative, number(5)], -3),
        (vec![number(20), Token::Division, number(2), Token::Division, number(5)], 2),
        (vec![number(4294967295), Token::Addition, number(1)], 4294967296),
    ];
    for (tokens, expected) in cases {
        assert_eq!(run(vec![returning(tokens)]), expected);
    }
}

#[test]
fn comparisons_take_the_left_operand_first() {
    let cases = vec![
        (1, Token::LessThan, 2, 1),
        (2, Token::LessThan, 1, 0),
        (2, Token::LessThan, 2, 0),
        (2, Token::LessThanEqual, 2, 1),
        (3, Token::LessThanEqual, 2, 0),
        (3, Token::GreaterThan, 2, 1),
        (2, Token::GreaterThan, 3, 0),
        (2, Token::GreaterThanEqual, 2, 1),
        (1, Token::GreaterThanEqual, 2, 0),
        (2, Token::Equal, 2, 1),
        (1, Token::Equal, 2, 0),
        (1, Token::NotEqual, 2, 1),
        (2, Token::NotEqual, 2, 0),
    ];
    for (left, operator, right, expected) in cases {
        let result = run(vec![returning(vec![number(left), operator, number(right)])]);
        assert_eq!(result, expected);
    }
    // -1 < 1: the comparison is signed.
    let result = run(vec![returning(vec![
        Token::Negative,
        number(1),
        Token::LessThan,
        number(1),
    ])]);
    assert_eq!(result, 1);
}

#[test]
fn variables_keep_what_is_assigned() {
    // int a = 2; int b = a + 3; a = b * a; a -= 1; return a + b;
    let result = run(vec![
        declare("a", vec![number(2)]),
        declare("b", vec![ident("a"), Token::Addition, number(3)]),
        vec![
            ident("a"),
            Token::Assign,
            ident("b"),
            Token::Multiplication,
            ident("a"),
            Token::Semicolon,
        ],
        vec![ident("a"), Token::AssignSub, number(1), Token::Semicolon],
        returning(vec![ident("a"), Token::Addition, ident("b")]),
    ]);
    assert_eq!(result, 14);
    // int a = 1; int b = 2; int c = a = b = 7; return a + b + c;
    let result = run(vec![
        declare("a", vec![number(1)]),
        declare("b", vec![number(2)]),
        declare("c", vec![ident("a"), Token::Assign, ident("b"), Token::Assign, number(7)]),
        returning(vec![ident("a"), Token::Addition, ident("b"), Token::Addition, ident("c")]),
    ]);
    assert_eq!(result, 21);
}

#[test]
fn function_without_return_gives_zero() {
    assert_eq!(run(vec![declare("a", vec![number(5)])]), 0);
    assert_eq!(run(vec![]), 0);
}
