use bfrun::Interpreter;

/// The "Hello World!" program, behind a comment loop that a fresh tape
/// makes the engine skip.
const HELLO_WORLD_PROG: &str = "[,.[.],..,,,+,-,<>,[]..]++++++++[>++++[>++>+++>+++>+<<<<-]>+>+>->>+[<]<-]>>.>---.+++++++..+++.>>.<-.<.+++.------.--------.>>+.>++.";

/// The same program as it is usually written down, with its commentary.
const HELLO_WORLD_FILE: &str = "\
++++++++               Set Cell #0 to 8
[
    >++++               Add 4 to Cell #1; this will always set Cell #1 to 4
    [                   as the cell will be cleared by the loop
        >++             Add 2 to Cell #2
        >+++            Add 3 to Cell #3
        >+++            Add 3 to Cell #4
        >+              Add 1 to Cell #5
        <<<<-           Decrement the loop counter in Cell #1
    ]                   Loop until Cell #1 is zero; number of iterations is 4
    >+                  Add 1 to Cell #2
    >+                  Add 1 to Cell #3
    >-                  Subtract 1 from Cell #4
    >>+                 Add 1 to Cell #6
    [<]                 Move back to the first zero cell you find; this will
                        be Cell #1 which was cleared by the previous loop
    <-                  Decrement the loop Counter in Cell #0
]                       Loop until Cell #0 is zero; number of iterations is 8

>>.                     Cell #2 has value 72 which is 'H'
>---.                   Subtract 3 from Cell #3 to get 101 which is 'e'
+++++++..+++.           Likewise for 'llo' from Cell #3
>>.                     Cell #5 is 32 for the space
<-.                     Subtract 1 from Cell #4 for 87 to give a 'W'
<.                      Cell #3 was set to 'o' from the end of 'Hello'
+++.------.--------.    Cell #3 for 'rl' and 'd'
>>+.                    Add 1 to Cell #5 gives us an exclamation point
>++.                    And finally a newline from Cell #6
";

#[test]
fn runtime_error() {
    let mut int = Interpreter::new();
    int.run(HELLO_WORLD_FILE).unwrap();
}

#[test]
fn lib_hello_world() {
    let expected = "Hello World!\n";
    let mut int = Interpreter::new().bfout(Vec::new());
    int.run(HELLO_WORLD_PROG).unwrap();
    let bfout = int.take_output();
    assert_eq!(&String::from_utf8(bfout).unwrap(), expected)
}

#[test]
fn hello_world_hello_world() {
    let expected = "Hello World!\n";
    let mut int = Interpreter::new().bfout(Vec::new());
    int.run(HELLO_WORLD_FILE).unwrap();
    let bfout = int.take_output();
    assert_eq!(&String::from_utf8(bfout).unwrap(), expected)
}
