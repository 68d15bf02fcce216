//! The command lines of the programs that a session runs. They depend on
//! nothing but the capture interface and the prefix of the capture files.

use vstd::prelude::*;
use vstd::string::*;

verus! {

/// A program and its arguments.
#[derive(Debug, PartialEq, Eq)]
pub struct CommandLine {
    pub program: String,
    pub args: Vec<String>,
}

/// What a [`CommandLine`] holds, as plain values.
pub struct CommandLineView {
    pub program: Seq<char>,
    pub args: Seq<Seq<char>>,
}

impl View for CommandLine {
    type V = CommandLineView;

    open spec fn view(&self) -> CommandLineView {
        CommandLineView { program: self.program@, args: self.args.deep_view() }
    }
}

/// The command that puts the capture interface into monitor mode.
pub open spec fn monitor_mode_line(interface: Seq<char>) -> CommandLineView {
    CommandLineView { program: "sudo"@, args: seq!["airmon-ng"@, "start"@, interface] }
}

/// The command that scans on the capture interface: it writes capture
/// files in two formats under the prefix and reports once a second.
pub open spec fn scan_line(interface: Seq<char>, prefix: Seq<char>) -> CommandLineView {
    CommandLineView {
        program: "sudo"@,
        args: seq![
            "airodump-ng"@,
            "--output-format"@,
            "kismet,csv"@,
            "-w"@,
            prefix,
            "--update"@,
            "1"@,
            interface,
        ],
    }
}

/// The command that lists the MQTT packets of a capture file as JSON.
pub open spec fn dissect_line(capture: Seq<char>) -> CommandLineView {
    CommandLineView {
        program: "tshark"@,
        args: seq!["-r"@, capture, "-Y"@, "mqtt"@, "-T"@, "json"@],
    }
}

/// Adds one argument.
fn push_arg(args: &mut Vec<String>, text: &str)
    ensures
        final(args).deep_view() == old(args).deep_view().push(text@),
{
    let ghost before = args.deep_view();
    args.push(text.to_owned());
    assert(args.deep_view() =~= before.push(text@));
}

/// Builds the command that puts the capture interface into monitor mode.
pub fn monitor_mode_command(interface: &str) -> (line: CommandLine)
    ensures
        line@ == monitor_mode_line(interface@),
{
    let mut args: Vec<String> = Vec::new();
    assert(args.deep_view() =~= Seq::<Seq<char>>::empty());
    push_arg(&mut args, "airmon-ng");
    push_arg(&mut args, "start");
    push_arg(&mut args, interface);
    assert(args.deep_view() =~= monitor_mode_line(interface@).args);
    CommandLine { program: "sudo".to_owned(), args }
}

/// Builds the command that scans on the capture interface.
pub fn scan_command(interface: &str, prefix: &str) -> (line: CommandLine)
    ensures
        line@ == scan_line(interface@, prefix@),
{
    let mut args: Vec<String> = Vec::new();
    assert(args.deep_view() =~= Seq::<Seq<char>>::empty());
    push_arg(&mut args, "airodump-ng");
    push_arg(&mut args, "--output-format");
    push_arg(&mut args, "kismet,csv");
    push_arg(&mut args, "-w");
    push_arg(&mut args, prefix);
    push_arg(&mut args, "--update");
    push_arg(&mut args, "1");
    push_arg(&mut args, interface);
    assert(args.deep_view() =~= scan_line(interface@, prefix@).args);
    CommandLine { program: "sudo".to_owned(), args }
}

/// Builds the command that lists the MQTT packets of a capture file.
pub fn dissect_command(capture: &str) -> (line: CommandLine)
    ensures
        line@ == dissect_line(capture@),
{
    let mut args: Vec<String> = Vec::new();
    assert(args.deep_view() =~= Seq::<Seq<char>>::empty());
    push_arg(&mut args, "-r");
    push_arg(&mut args, capture);
    push_arg(&mut args, "-Y");
    push_arg(&mut args, "mqtt");
    push_arg(&mut args, "-T");
    push_arg(&mut args, "json");
    assert(args.deep_view() =~= dissect_line(capture@).args);
    CommandLine { program: "tshark".to_owned(), args }
}

} // verus!
