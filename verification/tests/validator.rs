use bfrun::analyze::{all, brackets};
use bfrun::error::Error;
use bfrun::ops::{trunc, Op};
use bfrun::pre::{process, strip_comments, tokenize};

fn chars(text: &str) -> Vec<char> {
    text.chars().collect()
}

#[test]
fn nested_brackets_validate() {
    assert_eq!(brackets(&chars("[[]]")), Ok(()));
    assert_eq!(all(&chars("[[]]")), Ok(()));
}

#[test]
fn surplus_close_is_missing_left_bracket() {
    assert_eq!(brackets(&chars("[]]")), Err(Error::MissingLeftBracket));
    assert_eq!(all(&chars("[]]")), Err(Error::MissingLeftBracket));
}

#[test]
fn surplus_open_is_missing_right_bracket() {
    assert_eq!(brackets(&chars("[[")), Err(Error::MissingRightBracket));
    assert_eq!(all(&chars("[[")), Err(Error::MissingRightBracket));
}

#[test]
fn empty_program_validates() {
    assert_eq!(brackets(&[]), Ok(()));
    assert_eq!(process(""), Ok(vec![]));
}

#[test]
fn close_before_open_fails_at_once() {
    // The counts agree, the nesting does not.
    assert_eq!(brackets(&chars("][")), Err(Error::MissingLeftBracket));
    // The first fault wins over a later one.
    assert_eq!(brackets(&chars("][[")), Err(Error::MissingLeftBracket));
}

#[test]
fn brackets_ignores_other_characters() {
    assert_eq!(brackets(&chars("+[-<>.,]x y")), Ok(()));
    assert_eq!(brackets(&chars("+-<>.,")), Ok(()));
}

#[test]
fn validation_agrees_with_the_grammar_on_small_programs() {
    // Every string of up to six brackets, against a direct parser.
    fn parse(text: &[char]) -> Option<usize> {
        // Returns how many characters of nested text stand at the front.
        let mut i = 0;
        while i < text.len() && text[i] == '[' {
            let inner = parse(&text[i + 1..])?;
            let close = i + 1 + inner;
            if close >= text.len() || text[close] != ']' {
                return None;
            }
            i = close + 1;
        }
        Some(i)
    }
    for len in 0..=6u32 {
        for bits in 0..(1u32 << len) {
            let text: Vec<char> = (0..len)
                .map(|i| if bits & (1 << i) == 0 { '[' } else { ']' })
                .collect();
            let nested = parse(&text) == Some(text.len());
            assert_eq!(brackets(&text).is_ok(), nested, "{:?}", text);
        }
    }
}

#[test]
fn process_drops_comments_and_keeps_order() {
    assert_eq!(
        process("a+b[c]-\n<d>e.f,g"),
        Ok(vec!['+', '[', ']', '-', '<', '>', '.', ','])
    );
    assert_eq!(strip_comments("hello world"), Vec::<char>::new());
    assert_eq!(strip_comments("é+ü-"), vec!['+', '-']);
}

#[test]
fn process_refuses_unbalanced_programs() {
    assert_eq!(process("x[y[z"), Err(Error::MissingRightBracket));
    assert_eq!(process("+]+"), Err(Error::MissingLeftBracket));
    // The tokenizer alone refuses nothing.
    assert_eq!(strip_comments("+]+"), vec!['+', ']', '+']);
}

#[test]
fn tokenize_maps_each_instruction_to_its_operation() {
    assert_eq!(
        tokenize("<>+-.,[] and nothing else"),
        vec![
            Op::MoveLeft,
            Op::MoveRight,
            Op::Increment,
            Op::Decrement,
            Op::Output,
            Op::Input,
            Op::JumpIfZero,
            Op::JumpIfNonZero,
        ]
    );
    assert_eq!(tokenize("no instruction here"), vec![]);
}

#[test]
fn op_and_char_correspond_one_to_one() {
    for c in ['<', '>', '+', '-', '.', ',', '[', ']'] {
        let op = Op::from_char(c).unwrap();
        assert_eq!(op.to_char(), c);
    }
    for c in ['a', ' ', '\n', '0', '(', '{', '#', 'é'] {
        assert_eq!(Op::from_char(c), None);
    }
}

#[test]
fn trunc_is_the_count_modulo_256() {
    assert_eq!(trunc(0), 0);
    assert_eq!(trunc(1), 1);
    assert_eq!(trunc(255), 255);
    assert_eq!(trunc(256), 0);
    assert_eq!(trunc(257), 1);
    assert_eq!(trunc(511), 255);
    assert_eq!(trunc(512), 0);
    assert_eq!(trunc(u32::MAX), 255);
}

#[test]
fn error_messages() {
    assert_eq!(Error::MissingRightBracket.to_string(), "Error: MissingRightBracket");
    assert_eq!(Error::MissingLeftBracket.to_string(), "Error: MissingLeftBracket");
    assert_eq!(Error::EndOfInput.to_string(), "Error: EndOfInput");
}
