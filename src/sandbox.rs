//! What the sandbox runner computes before it launches the isolated
//! process: the process arguments and the text fed to standard input.

use vstd::prelude::*;

verus! {

/// Name of the file that holds the submitted source, inside the
/// execution's private workspace.
pub const SOURCE_FILE_NAME: &'static str = "source.dn";

/// The container runtime's program name.
pub const RUNTIME_PROGRAM: &'static str = "docker";

/// Text for standard input: the input, with a line terminator appended
/// unless it already ends with one, so that line-buffered reads return.
pub open spec fn stdin_spec(input: Seq<char>) -> Seq<char> {
    if input.len() > 0 && input.last() == '\n' {
        input
    } else {
        input.push('\n')
    }
}

/// The shell pipeline run inside the sandbox: build the source, run the
/// artifact only if the build succeeded (under its own time limit), merge
/// every stream onto standard output, and end with a status line giving
/// the exit code.
pub open spec fn sandbox_script() -> Seq<char> {
    "sleep 1; (deen ./source.dn output && echo '' && timeout 15s ./output; CODE=$?; if [ $CODE -eq 124 ]; then echo 'RUNNER: 15 seconds runtime expired, exiting...'; fi; echo ''; echo \"Process finished with code: $CODE\") 2>&1"@
}

/// Arguments of the runtime's `run` for the execution named `name`, whose
/// source file lies at `source_path` on the host: interactive, removed on
/// exit, one CPU, 128 MiB of memory and no extra swap, no network, the
/// source mounted read-only.
pub open spec fn sandbox_args_spec(name: Seq<char>, source_path: Seq<char>) -> Seq<Seq<char>> {
    seq![
        "run"@,
        "-i"@,
        "--rm"@,
        "--name"@,
        name,
        "--cpus"@,
        "1"@,
        "--memory"@,
        "128m"@,
        "--memory-swap"@,
        "128m"@,
        "--network"@,
        "none"@,
        "-v"@,
        source_path + ":/sandbox/source.dn:ro"@,
        "deen"@,
        "sh"@,
        "-c"@,
        sandbox_script(),
    ]
}

/// Arguments of the runtime's `kill` for the execution named `name`.
pub open spec fn kill_args_spec(name: Seq<char>) -> Seq<Seq<char>> {
    seq!["kill"@, name]
}

pub open spec fn views(v: Seq<String>) -> Seq<Seq<char>> {
    v.map_values(|s: String| s@)
}

pub fn stdin_payload(input: &str) -> (r: String)
    ensures
        r@ == stdin_spec(input@),
{
    let n = input.unicode_len();
    let mut s = String::from_str(input);
    if n > 0 && input.get_char(n - 1) == '\n' {
        s
    } else {
        proof {
            reveal_strlit("\n");
        }
        s.append("\n");
        s
    }
}

fn push_str(v: &mut Vec<String>, s: &str)
    ensures
        views(final(v)@) == views(old(v)@).push(s@),
{
    v.push(String::from_str(s));
    assert(views(v@) =~= views(old(v)@).push(s@));
}

pub fn sandbox_args(name: &str, source_path: &str) -> (r: Vec<String>)
    ensures
        views(r@) == sandbox_args_spec(name@, source_path@),
{
    let mut v: Vec<String> = Vec::new();
    assert(views(v@) =~= Seq::<Seq<char>>::empty());
    push_str(&mut v, "run");
    push_str(&mut v, "-i");
    push_str(&mut v, "--rm");
    push_str(&mut v, "--name");
    push_str(&mut v, name);
    push_str(&mut v, "--cpus");
    push_str(&mut v, "1");
    push_str(&mut v, "--memory");
    push_str(&mut v, "128m");
    push_str(&mut v, "--memory-swap");
    push_str(&mut v, "128m");
    push_str(&mut v, "--network");
    push_str(&mut v, "none");
    push_str(&mut v, "-v");
    let mount = String::from_str(source_path).concat(":/sandbox/source.dn:ro");
    push_str(&mut v, mount.as_str());
    push_str(&mut v, "deen");
    push_str(&mut v, "sh");
    push_str(&mut v, "-c");
    push_str(
        &mut v,
        "sleep 1; (deen ./source.dn output && echo '' && timeout 15s ./output; CODE=$?; if [ $CODE -eq 124 ]; then echo 'RUNNER: 15 seconds runtime expired, exiting...'; fi; echo ''; echo \"Process finished with code: $CODE\") 2>&1",
    );
    assert(views(v@) =~= sandbox_args_spec(name@, source_path@));
    v
}

pub fn kill_args(name: &str) -> (r: Vec<String>)
    ensures
        views(r@) == kill_args_spec(name@),
{
    let mut v: Vec<String> = Vec::new();
    assert(views(v@) =~= Seq::<Seq<char>>::empty());
    push_str(&mut v, "kill");
    push_str(&mut v, name);
    assert(views(v@) =~= kill_args_spec(name@));
    v
}

} // verus!
