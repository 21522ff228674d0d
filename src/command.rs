//! The processes a request runs, as program and argument list.
use vstd::prelude::*;
use vstd::string::*;

verus! {

/// A process to run: the program and its arguments, in order.
#[derive(Debug)]
pub struct ProcessCommand {
    pub program: String,
    pub args: Vec<String>,
}

/// What a [`ProcessCommand`] holds, as character sequences.
pub struct CommandView {
    pub program: Seq<char>,
    pub args: Seq<Seq<char>>,
}

impl View for ProcessCommand {
    type V = CommandView;

    open spec fn view(&self) -> CommandView {
        CommandView { program: self.program@, args: self.args.deep_view() }
    }
}

/// The compiler run: `<compiler> -g <source> -o <artifact> <extra...>`.
pub open spec fn compile_command_of(
    compiler: Seq<char>,
    source: Seq<char>,
    artifact: Seq<char>,
    extra: Seq<Seq<char>>,
) -> CommandView {
    CommandView { program: compiler, args: seq!["-g"@, source, "-o"@, artifact] + extra }
}

/// The disassembler run for one function: batch mode, the Intel flavour, the
/// artifact file, and the disassembly of that single function.
pub open spec fn disassemble_command_of(artifact: Seq<char>, function: Seq<char>) -> CommandView {
    CommandView {
        program: "gdb"@,
        args: seq![
            "-batch"@,
            "-ex"@,
            "set disassembly-flavor intel"@,
            "-ex"@,
            "file "@ + artifact,
            "-ex"@,
            "disassemble "@ + function,
        ],
    }
}

fn concat_str(a: &str, b: &String) -> (r: String)
    ensures
        r@ == a@ + b@,
{
    let mut s = String::from_str(a);
    s.append(b.as_str());
    s
}

/// Builds the compiler run for a staged source, with debug symbols, writing
/// the artifact to `artifact_path`, followed by the extra arguments.
pub fn compile_command(
    compiler: &String,
    source_path: &String,
    artifact_path: &String,
    extra: &Vec<String>,
) -> (r: ProcessCommand)
    ensures
        r@ == compile_command_of(compiler@, source_path@, artifact_path@, extra.deep_view()),
{
    let mut args: Vec<String> = Vec::new();
    args.push(String::from_str("-g"));
    args.push(source_path.clone());
    args.push(String::from_str("-o"));
    args.push(artifact_path.clone());
    let ghost head = args.deep_view();
    let mut i: usize = 0;
    while i < extra.len()
        invariant
            i <= extra.len(),
            args.deep_view() =~= head + extra.deep_view().subrange(0, i as int),
        decreases extra.len() - i,
    {
        let ghost prev = args.deep_view();
        let a = extra[i].clone();
        args.push(a);
        proof {
            assert(args.deep_view() =~= prev.push(a@));
            assert(extra.deep_view()[i as int] == a@);
        }
        i = i + 1;
    }
    proof {
        assert(extra.deep_view().subrange(0, i as int) =~= extra.deep_view());
        assert(head =~= seq!["-g"@, source_path@, "-o"@, artifact_path@]);
    }
    ProcessCommand { program: compiler.clone(), args }
}

/// Builds the disassembler run for one function of the artifact.
pub fn disassemble_command(artifact_path: &String, function: &String) -> (r: ProcessCommand)
    ensures
        r@ == disassemble_command_of(artifact_path@, function@),
{
    let mut args: Vec<String> = Vec::new();
    args.push(String::from_str("-batch"));
    args.push(String::from_str("-ex"));
    args.push(String::from_str("set disassembly-flavor intel"));
    args.push(String::from_str("-ex"));
    args.push(concat_str("file ", artifact_path));
    args.push(String::from_str("-ex"));
    args.push(concat_str("disassemble ", function));
    let r = ProcessCommand { program: String::from_str("gdb"), args };
    proof {
        assert(r@.args =~= disassemble_command_of(artifact_path@, function@).args);
    }
    r
}

} // verus!
