use std::collections::HashMap;

use brainfc::{generate_x86, Args, GenerateX86Error};

const PROLOGUE: &str = "global _start\n_start:\n    mov rbp, rsp\n    sub rsp, 320\n    pxor xmm0, xmm0\n    mov rax, -16\ninit_zero_loop:\n    movdqa [rbp + rax], xmm0\n    sub rax, 16\n    cmp rax, -320\n    jge init_zero_loop\n    mov rax, 0\n    mov rbx, 0\n";
const EPILOGUE: &str = "    mov rax, 60\n    syscall\n";

/// Runs the emitted text on a small model of the registers and stack memory
/// it uses, and returns what it wrote to standard output.
fn run(text: &str, input: &[u8]) -> Vec<u8> {
    let lines: Vec<&str> = text.lines().collect();
    let mut labels: HashMap<&str, usize> = HashMap::new();
    for (i, l) in lines.iter().enumerate() {
        if let Some(name) = l.strip_suffix(':') {
            labels.insert(name, i);
        }
    }
    let mut mem: HashMap<i64, u8> = HashMap::new();
    for a in -400i64..0 {
        mem.insert(a, 0xAA);
    }
    let (mut rax, mut rbx, mut rsi, mut rdi, mut rdx) = (0i64, 0x55i64, 0i64, 0i64, 0i64);
    let mut flags = (0i64, 0i64);
    let mut input = input.iter();
    let mut out = Vec::new();
    let mut pc = 0usize;
    let mut steps = 0u32;
    while pc < lines.len() {
        steps += 1;
        assert!(steps < 1_000_000, "program did not stop");
        let l = lines[pc].trim();
        pc += 1;
        let bl = (rbx & 0xff) as u8;
        match l {
            "global _start" | "mov rbp, rsp" | "sub rsp, 320" | "pxor xmm0, xmm0" => {}
            _ if l.ends_with(':') => {}
            "mov rax, -16" => rax = -16,
            "movdqa [rbp + rax], xmm0" => {
                for k in 0..16 {
                    mem.insert(rax + k, 0);
                }
            }
            "sub rax, 16" => rax -= 16,
            "cmp rax, -320" => flags = (rax, -320),
            "jge init_zero_loop" => {
                if flags.0 >= flags.1 {
                    pc = labels["init_zero_loop"];
                }
            }
            "mov rax, 0" => rax = 0,
            "mov rax, 1" => rax = 1,
            "mov rax, 60" => rax = 60,
            "mov rbx, 0" => rbx = 0,
            "mov rdi, 0" => rdi = 0,
            "mov rdi, 1" => rdi = 1,
            "mov rdx, 1" => rdx = 1,
            "inc bl" => rbx = (rbx & !0xff) | bl.wrapping_add(1) as i64,
            "dec bl" => rbx = (rbx & !0xff) | bl.wrapping_sub(1) as i64,
            "inc rax" => rax += 1,
            "dec rax" => rax -= 1,
            "mov byte [rbp + rax - 9], bl" => {
                mem.insert(rax - 9, bl);
            }
            "mov bl, byte [rbp + rax - 9]" => rbx = (rbx & !0xff) | mem[&(rax - 9)] as i64,
            "lea rsi, [rbp + rax - 9]" => rsi = rax - 9,
            "mov qword [rbp - 8], rax" => {
                for (k, b) in rax.to_le_bytes().iter().enumerate() {
                    mem.insert(-8 + k as i64, *b);
                }
            }
            "mov rax, qword [rbp - 8]" => {
                let mut b = [0u8; 8];
                for k in 0..8 {
                    b[k] = mem[&(-8 + k as i64)];
                }
                rax = i64::from_le_bytes(b);
            }
            "cmp bl, 0" => flags = (bl as i8 as i64, 0),
            "syscall" => match (rax, rdi, rdx) {
                (60, _, _) => return out,
                (1, 1, 1) => {
                    out.push(mem[&rsi]);
                    rax = 1;
                }
                (0, 0, 1) => match input.next() {
                    Some(b) => {
                        mem.insert(rsi, *b);
                        rax = 1;
                    }
                    None => rax = 0,
                },
                other => panic!("unexpected system call {:?}", other),
            },
            _ => {
                if let Some(target) = l.strip_prefix("jle ") {
                    if flags.0 <= flags.1 {
                        pc = labels[target];
                    }
                } else if let Some(target) = l.strip_prefix("jmp ") {
                    pc = labels[target];
                } else {
                    panic!("unexpected line {:?}", l);
                }
            }
        }
    }
    panic!("program ran past its end");
}

fn compile(src: &str) -> String {
    generate_x86(src).expect("the source should translate")
}

#[test]
fn empty_source_only_sets_up_and_exits() {
    let text = compile("");
    assert_eq!(text, format!("{}{}", PROLOGUE, EPILOGUE));
    assert_eq!(text.matches("syscall").count(), 1);
    assert!(!text.contains("jmp") && !text.contains("jle") && !text.contains("entry_"));
    assert_eq!(run(&text, &[]), Vec::<u8>::new());
}

#[test]
fn three_increments_then_output_write_three() {
    assert_eq!(run(&compile("+++."), &[]), vec![3]);
}

#[test]
fn increment_wraps_after_256() {
    let src = format!("{}.", "+".repeat(256));
    assert_eq!(run(&compile(&src), &[]), vec![0]);
}

#[test]
fn decrement_from_zero_wraps_to_255() {
    assert_eq!(run(&compile("-."), &[]), vec![255]);
}

#[test]
fn nested_loops_close_innermost_first() {
    let text = compile("[[]]");
    let at = |s: &str| text.find(s).unwrap_or_else(|| panic!("missing {:?}", s));
    assert!(at("entry_0:\n") < at("jle exit_0\n"));
    assert!(at("jle exit_0\n") < at("entry_1:\n"));
    assert!(at("entry_1:\n") < at("jmp entry_1\n"));
    assert!(at("jmp entry_1\n") < at("exit_1:\n"));
    assert!(at("exit_1:\n") < at("jmp entry_0\n"));
    assert!(at("jmp entry_0\n") < at("exit_0:\n"));
    assert_eq!(run(&text, &[]), Vec::<u8>::new());
}

#[test]
fn round_trip_restores_cursor_and_accumulator() {
    assert_eq!(run(&compile("+++++>>>++<<<."), &[]), vec![5]);
    assert_eq!(run(&compile("+++++>>>++<<<.>.>.>."), &[]), vec![5, 0, 0, 2]);
    assert_eq!(run(&compile(">>>+++<<<."), &[]), vec![0]);
}

#[test]
fn translating_twice_gives_identical_text() {
    let src = "++[>+<-]>.[[-]]";
    assert_eq!(compile(src), compile(src));
    assert_eq!(generate_x86("]"), generate_x86("]"));
}

#[test]
fn comments_do_not_change_the_text() {
    assert_eq!(compile("+ a [ b - ] c ."), compile("+[-]."));
    assert_eq!(compile("héllo wörld"), compile(""));
}

#[test]
fn unmatched_close_is_a_mismatch() {
    assert_eq!(generate_x86("]"), Err(GenerateX86Error::BracketMismatch));
    assert_eq!(generate_x86("[]]"), Err(GenerateX86Error::BracketMismatch));
    assert_eq!(generate_x86("]["), Err(GenerateX86Error::BracketMismatch));
    assert_eq!(generate_x86("[[[]]]]["), Err(GenerateX86Error::BracketMismatch));
}

#[test]
fn unmatched_open_is_unterminated() {
    assert_eq!(generate_x86("["), Err(GenerateX86Error::UnterminatedLoop));
    assert_eq!(generate_x86("[[]"), Err(GenerateX86Error::UnterminatedLoop));
    assert_eq!(generate_x86("+[-[+]"), Err(GenerateX86Error::UnterminatedLoop));
}

#[test]
fn balanced_brackets_translate() {
    assert!(generate_x86("[]").is_ok());
    assert!(generate_x86("[[][]]").is_ok());
    assert!(generate_x86("[]x[]").is_ok());
}

#[test]
fn single_increment_has_exact_text() {
    assert_eq!(compile("+"), format!("{}    inc bl\n{}", PROLOGUE, EPILOGUE));
    assert_eq!(compile("-"), format!("{}    dec bl\n{}", PROLOGUE, EPILOGUE));
}

#[test]
fn moves_flush_and_reload_in_opposite_directions() {
    let store = "    mov byte [rbp + rax - 9], bl\n";
    let load = "    mov bl, byte [rbp + rax - 9]\n";
    assert_eq!(compile(">"), format!("{}{}    dec rax\n{}{}", PROLOGUE, store, load, EPILOGUE));
    assert_eq!(compile("<"), format!("{}{}    inc rax\n{}{}", PROLOGUE, store, load, EPILOGUE));
}

#[test]
fn output_text_saves_and_restores_cursor() {
    let expected = "    mov byte [rbp + rax - 9], bl\n    lea rsi, [rbp + rax - 9]\n    mov qword [rbp - 8], rax\n    mov rax, 1\n    mov rdi, 1\n    mov rdx, 1\n    syscall\n    mov rax, qword [rbp - 8]\n";
    assert_eq!(compile("."), format!("{}{}{}", PROLOGUE, expected, EPILOGUE));
}

#[test]
fn loop_text_uses_numbered_labels() {
    let expected = "entry_0:\n    cmp bl, 0\n    jle exit_0\n    jmp entry_0\nexit_0:\n";
    assert_eq!(compile("[]"), format!("{}{}{}", PROLOGUE, expected, EPILOGUE));
}

#[test]
fn labels_past_nine_have_several_digits() {
    let text = compile(&"[]".repeat(12));
    assert!(text.contains("entry_10:\n"));
    assert!(text.contains("jle exit_11\n"));
    assert!(text.contains("jmp entry_11\n"));
    assert!(!text.contains("entry_12"));
}

#[test]
fn input_reads_one_byte_into_the_cell() {
    assert_eq!(run(&compile(",."), &[7]), vec![7]);
    assert_eq!(run(&compile(",>,<.>."), &[1, 2]), vec![1, 2]);
}

#[test]
fn input_at_end_leaves_the_cell() {
    assert_eq!(run(&compile("+++,."), &[]), vec![3]);
}

#[test]
fn loop_multiplies() {
    assert_eq!(run(&compile("++++++++[>++++++++<-]>+."), &[]), vec![65]);
}

#[test]
fn loop_is_skipped_when_cell_is_negative_as_signed() {
    let src = format!("{}[-].", "+".repeat(200));
    assert_eq!(run(&compile(&src), &[]), vec![200]);
}

#[test]
fn hello_world_runs() {
    let src = "++++++++++[>+++++++>++++++++++>+++>+<<<<-]>++.>+.+++++++..+++.>++.<<+++++++++++++++.>.+++.------.--------.>+.>.";
    assert_eq!(run(&compile(src), &[]), b"Hello World!\n".to_vec());
}

#[test]
fn tape_is_zeroed_before_use() {
    let src = format!("{}.", ">.".repeat(300));
    assert_eq!(run(&compile(&src), &[]), vec![0; 301]);
}

#[test]
fn args_hold_paths() {
    let a = Args::Compile { src: "in.bf".to_string(), out: "out.asm".to_string() };
    assert_eq!(a, Args::Compile { src: "in.bf".to_string(), out: "out.asm".to_string() });
    assert_ne!(a, Args::Repl);
}
