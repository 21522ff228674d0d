use disasm_pipeline::command::{compile_command, disassemble_command};
use disasm_pipeline::forward::forward_body;
use disasm_pipeline::paths::{artifact_path, source_path};
use disasm_pipeline::pipeline::{
    Action, CompilationRequest, CompilerOutput, Event, Pipeline, PipelineError,
};

fn s(x: &str) -> String {
    x.to_string()
}

fn lines(xs: &[&str]) -> Vec<String> {
    xs.iter().map(|x| x.to_string()).collect()
}

fn gdb_main() -> Vec<String> {
    lines(&[
        "Dump of assembler code for function main():",
        "   0x0000000000001129 <+0>:\tpush   rbp",
        "   0x000000000000112a <+1>:\tmov    rbp,rsp",
        "   0x000000000000112d <+4>:\tmov    eax,0x0",
        "   0x0000000000001132 <+9>:\tpop    rbp",
        "   0x0000000000001133 <+10>:\tret",
        "End of assembler dump.",
    ])
}

fn request(source: &str, functions: &[&str], compiler: &str, args: &[&str]) -> CompilationRequest {
    CompilationRequest {
        source: s(source),
        functions: lines(functions),
        compiler: s(compiler),
        args: lines(args),
    }
}

fn exited(success: bool, out: Vec<String>) -> Event {
    let mut text = out.join("\n");
    if !out.is_empty() {
        text.push('\n');
    }
    Event::ProcessExited { success, stdout: text.into_bytes() }
}

fn expect_run(p: &Pipeline) -> (String, Vec<String>) {
    match p.action() {
        Action::RunProcess(c) => (c.program, c.args),
        other => panic!("expected a process run, got {:?}", other),
    }
}

fn expect_remove(p: &Pipeline) -> String {
    match p.action() {
        Action::RemoveFile(path) => path,
        other => panic!("expected a removal, got {:?}", other),
    }
}

fn expect_finish(p: &Pipeline) -> Result<CompilerOutput, PipelineError> {
    assert!(p.is_done());
    match p.action() {
        Action::Finish(r) => r,
        other => panic!("expected the end, got {:?}", other),
    }
}

#[test]
fn paths_are_named_after_the_request() {
    assert_eq!(source_path(&s("abc")), "/storage/source-abc.cpp");
    assert_eq!(artifact_path(&s("abc")), "/storage/program-abc");
}

#[test]
fn paths_of_distinct_requests_differ() {
    let ids = [s("a"), s("b"), s("ab"), s("")];
    for x in ids.iter() {
        for y in ids.iter() {
            assert_ne!(source_path(x), artifact_path(y));
            if x != y {
                assert_ne!(source_path(x), source_path(y));
                assert_ne!(artifact_path(x), artifact_path(y));
            }
        }
    }
}

#[test]
fn compile_command_layout() {
    let c = compile_command(&s("g++"), &s("/s.cpp"), &s("/p"), &lines(&["-O2", "-std=c++17"]));
    assert_eq!(c.program, "g++");
    assert_eq!(c.args, lines(&["-g", "/s.cpp", "-o", "/p", "-O2", "-std=c++17"]));
}

#[test]
fn disassemble_command_layout() {
    let c = disassemble_command(&s("/storage/program-x"), &s("main"));
    assert_eq!(c.program, "gdb");
    assert_eq!(
        c.args,
        lines(&[
            "-batch",
            "-ex",
            "set disassembly-flavor intel",
            "-ex",
            "file /storage/program-x",
            "-ex",
            "disassemble main",
        ])
    );
}

#[test]
fn forward_body_is_json() {
    assert_eq!(
        forward_body(&s("int main(){return 0;}"), &s("abc")),
        "{\"file\":\"int main(){return 0;}\",\"name\":\"abc\"}"
    );
}

#[test]
fn forward_body_escapes_source() {
    assert_eq!(
        forward_body(&s("puts(\"hi\");\n"), &s("id")),
        "{\"file\":\"puts(\\\"hi\\\");\\n\",\"name\":\"id\"}"
    );
}

#[test]
fn scenario_successful_compile() {
    let mut p = Pipeline::new(request("int main(){return 0;}", &["main"], "g++", &[]), s("r1"));
    let (program, args) = expect_run(&p);
    assert_eq!(program, "g++");
    assert_eq!(args, lines(&["-g", "/storage/source-r1.cpp", "-o", "/storage/program-r1"]));
    p.step(exited(true, Vec::new()));
    let (program, args) = expect_run(&p);
    assert_eq!(program, "gdb");
    assert_eq!(args[6], "disassemble main");
    p.step(exited(true, gdb_main()));
    assert_eq!(expect_remove(&p), "/storage/program-r1");
    p.step(Event::FileRemoved { success: true });
    assert_eq!(expect_remove(&p), "/storage/source-r1.cpp");
    p.step(Event::FileRemoved { success: true });
    match p.action() {
        Action::Forward(body) => {
            assert_eq!(body, "{\"file\":\"int main(){return 0;}\",\"name\":\"r1\"}")
        }
        other => panic!("expected forwarding, got {:?}", other),
    }
    assert!(!p.is_done());
    p.step(Event::ForwardDispatched);
    let out = expect_finish(&p).unwrap();
    assert_eq!(out.compiler, "g++");
    assert_eq!(out.lines[0], "main");
    assert_eq!(
        out.lines,
        lines(&[
            "main",
            "push   rbp",
            "mov    rbp,rsp",
            "mov    eax,0x0",
            "pop    rbp",
            "ret",
            "End of assembler dump.",
        ])
    );
    assert!(out.lines.iter().all(|l| !l.contains('\t')));
}

#[test]
fn scenario_compile_error() {
    let mut p = Pipeline::new(request("int main(){return 0", &["main"], "g++", &[]), s("r2"));
    p.step(exited(false, lines(&["error: expected '}'"])));
    assert_eq!(expect_remove(&p), "/storage/source-r2.cpp");
    p.step(Event::FileRemoved { success: false });
    let out = expect_finish(&p).unwrap();
    assert_eq!(out.compiler, "g++");
    assert!(out.lines.is_empty());
}

#[test]
fn compile_error_never_runs_disassembler() {
    let mut p = Pipeline::new(request("x", &["main", "f"], "clang++", &["-O2"]), s("r3"));
    p.step(exited(false, Vec::new()));
    for _ in 0..3 {
        p.step(exited(true, gdb_main()));
        assert_eq!(expect_remove(&p), "/storage/source-r3.cpp");
    }
    p.step(Event::FileRemoved { success: true });
    p.step(exited(true, gdb_main()));
    p.step(Event::ForwardDispatched);
    let out = expect_finish(&p).unwrap();
    assert_eq!(out.compiler, "clang++");
    assert!(out.lines.is_empty());
}

#[test]
fn scenario_unknown_function() {
    let mut p = Pipeline::new(
        request("int main(){return 0;}", &["does_not_exist"], "g++", &[]),
        s("r4"),
    );
    p.step(exited(true, Vec::new()));
    let (_, args) = expect_run(&p);
    assert_eq!(args[6], "disassemble does_not_exist");
    p.step(exited(false, lines(&["No symbol \"does_not_exist\" in current context."])));
    assert_eq!(expect_remove(&p), "/storage/program-r4");
    p.step(Event::FileRemoved { success: true });
    assert_eq!(expect_remove(&p), "/storage/source-r4.cpp");
    p.step(Event::FileRemoved { success: true });
    match expect_finish(&p) {
        Err(PipelineError::DisassemblyFailure { function }) => {
            assert_eq!(function, "does_not_exist")
        }
        other => panic!("expected a disassembly failure, got {:?}", other),
    }
}

#[test]
fn disassembly_failure_stops_remaining_functions() {
    let mut p = Pipeline::new(request("src", &["a", "b", "c"], "g++", &[]), s("r5"));
    p.step(exited(true, Vec::new()));
    p.step(exited(true, lines(&["banner", "0 <+0>:\tret"])));
    let (_, args) = expect_run(&p);
    assert_eq!(args[6], "disassemble b");
    p.step(exited(false, Vec::new()));
    assert_eq!(expect_remove(&p), "/storage/program-r5");
    p.step(Event::FileRemoved { success: false });
    p.step(Event::FileRemoved { success: false });
    match expect_finish(&p) {
        Err(PipelineError::DisassemblyFailure { function }) => assert_eq!(function, "b"),
        other => panic!("expected a disassembly failure, got {:?}", other),
    }
}

#[test]
fn scenario_concurrent_requests() {
    let req = || request("int main(){return 0;}", &["main"], "g++", &[]);
    let mut a = Pipeline::new(req(), s("id-a"));
    let mut b = Pipeline::new(req(), s("id-b"));
    let (_, args_a) = expect_run(&a);
    let (_, args_b) = expect_run(&b);
    assert_ne!(args_a[1], args_b[1]);
    assert_ne!(args_a[3], args_b[3]);
    assert_ne!(args_a[1], args_b[3]);
    a.step(exited(true, Vec::new()));
    b.step(exited(true, Vec::new()));
    let (_, dis_a) = expect_run(&a);
    let (_, dis_b) = expect_run(&b);
    assert_ne!(dis_a[4], dis_b[4]);
    b.step(exited(true, gdb_main()));
    a.step(exited(true, gdb_main()));
    let ra = expect_remove(&a);
    let rb = expect_remove(&b);
    assert_ne!(ra, rb);
    for p in [&mut a, &mut b] {
        p.step(Event::FileRemoved { success: true });
        p.step(Event::FileRemoved { success: true });
        p.step(Event::ForwardDispatched);
    }
    let oa = expect_finish(&a).unwrap();
    let ob = expect_finish(&b).unwrap();
    assert_eq!(oa.lines, ob.lines);
    assert_eq!(oa.lines.len(), 7);
}

#[test]
fn artifact_cleanup_failure_is_an_error() {
    let mut p = Pipeline::new(request("src", &["main"], "g++", &[]), s("r6"));
    p.step(exited(true, Vec::new()));
    p.step(exited(true, gdb_main()));
    p.step(Event::FileRemoved { success: false });
    match expect_finish(&p) {
        Err(PipelineError::CleanupFailure { path }) => assert_eq!(path, "/storage/program-r6"),
        other => panic!("expected a cleanup failure, got {:?}", other),
    }
}

#[test]
fn source_cleanup_failure_is_an_error() {
    let mut p = Pipeline::new(request("src", &["main"], "g++", &[]), s("r7"));
    p.step(exited(true, Vec::new()));
    p.step(exited(true, gdb_main()));
    p.step(Event::FileRemoved { success: true });
    p.step(Event::FileRemoved { success: false });
    match expect_finish(&p) {
        Err(PipelineError::CleanupFailure { path }) => assert_eq!(path, "/storage/source-r7.cpp"),
        other => panic!("expected a cleanup failure, got {:?}", other),
    }
}

#[test]
fn no_functions_gives_empty_listing() {
    let mut p = Pipeline::new(request("src", &[], "g++", &[]), s("r8"));
    p.step(exited(true, Vec::new()));
    assert_eq!(expect_remove(&p), "/storage/program-r8");
    p.step(Event::FileRemoved { success: true });
    p.step(Event::FileRemoved { success: true });
    p.step(Event::ForwardDispatched);
    assert!(expect_finish(&p).unwrap().lines.is_empty());
}

#[test]
fn unexpected_event_changes_nothing() {
    let mut p = Pipeline::new(request("src", &["main"], "g++", &[]), s("r9"));
    p.step(Event::FileRemoved { success: true });
    p.step(Event::ForwardDispatched);
    let (program, _) = expect_run(&p);
    assert_eq!(program, "g++");
}

#[test]
fn listing_keeps_request_order() {
    let mut p = Pipeline::new(request("src", &["g", "main"], "g++", &["-O1"]), s("r10"));
    p.step(exited(true, Vec::new()));
    p.step(exited(true, lines(&["banner g", "0x1 <+0>:\tret"])));
    p.step(exited(true, gdb_main()));
    p.step(Event::FileRemoved { success: true });
    p.step(Event::FileRemoved { success: true });
    p.step(Event::ForwardDispatched);
    let out = expect_finish(&p).unwrap();
    assert_eq!(out.lines[0], "g");
    assert_eq!(out.lines[1], "ret");
    assert_eq!(out.lines[2], "main");
    assert_eq!(out.lines.len(), 9);
}

#[test]
fn crlf_output_is_split_into_lines() {
    let mut p = Pipeline::new(request("src", &["f"], "g++", &[]), s("r11"));
    p.step(exited(true, Vec::new()));
    let text = "Dump of assembler code for function f:\r\n   0x1 <+0>:\tret\r\nEnd of assembler dump.\r\n";
    p.step(Event::ProcessExited { success: true, stdout: text.as_bytes().to_vec() });
    p.step(Event::FileRemoved { success: true });
    p.step(Event::FileRemoved { success: true });
    p.step(Event::ForwardDispatched);
    let out = expect_finish(&p).unwrap();
    assert_eq!(out.lines, lines(&["f", "ret", "End of assembler dump."]));
}
