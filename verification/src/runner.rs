//! Turning a process binary into the format the kernel loads: the command
//! line of the converter, and what it needs to know of the binary.

use vstd::prelude::*;
use vstd::string::StringExecFns;

verus! {

/// The amount of space to reserve for the header of the loadable format. It
/// must match the value in the layout file of the platform, which is 0x48
/// on all platforms.
pub const TBF_HEADER_SIZE: u32 = 0x48;

/// Where to deploy the process binary.
#[derive(Clone, Copy, Debug, PartialEq, Eq, Structural)]
pub enum Deploy {
    /// Run it in the emulator.
    Qemu,
    /// Flash it with the loader.
    Tockloader,
}

/// The command line of the runner.
#[derive(Debug)]
pub struct Cli {
    /// Where to deploy the process binary. If not specified, the runner
    /// only converts it and does not attempt to run it.
    pub deploy: Option<Deploy>,
    /// The executable to convert and run.
    pub elf: String,
    /// Whether to output verbose debugging information to the console.
    pub verbose: bool,
}

/// Paths to the files that the converter writes.
#[derive(Debug)]
pub struct OutFiles {
    pub tab_path: String,
    pub tbf_path: String,
}

/// What the runner reads of a section of the executable.
#[derive(Debug)]
pub struct Section {
    pub name: String,
    pub size: u64,
}

/// The character that stands for a digit.
pub open spec fn digit_char(digit: nat) -> char {
    if digit == 0 {
        '0'
    } else if digit == 1 {
        '1'
    } else if digit == 2 {
        '2'
    } else if digit == 3 {
        '3'
    } else if digit == 4 {
        '4'
    } else if digit == 5 {
        '5'
    } else if digit == 6 {
        '6'
    } else if digit == 7 {
        '7'
    } else if digit == 8 {
        '8'
    } else {
        '9'
    }
}

/// A number in decimal, without leading zeros.
pub open spec fn decimal_digits(number: nat) -> Seq<char>
    decreases number,
{
    if number < 10 {
        seq![digit_char(number)]
    } else {
        decimal_digits(number / 10).push(digit_char(number % 10))
    }
}

/// Index of the first section named `.stack`, or the number of sections if
/// there is none at or after `start`.
pub open spec fn stack_section(sections: Seq<Section>, start: int) -> int
    decreases sections.len() - start,
{
    if start < 0 || start >= sections.len() {
        sections.len() as int
    } else if sections[start].name@ == ".stack"@ {
        start
    } else {
        stack_section(sections, start + 1)
    }
}

/// The command line of the converter, after its name.
pub open spec fn elf2tab_args_spec(
    package_name: Seq<char>,
    tab_path: Seq<char>,
    stack_size: Seq<char>,
    elf: Seq<char>,
    verbose: bool,
) -> Seq<Seq<char>> {
    let fixed = seq![
        "--kernel-major"@,
        "2"@,
        "--kernel-minor"@,
        "0"@,
        "-n"@,
        package_name,
        "-o"@,
        tab_path,
        "--protected-region-size"@,
        decimal_digits(TBF_HEADER_SIZE as nat),
        "--stack"@,
        stack_size,
        elf,
    ];
    if verbose {
        fixed.push("-v"@)
    } else {
        fixed
    }
}

fn digit_text(value: u64) -> (text: &'static str)
    requires
        value < 10,
    ensures
        text@ == seq![digit_char(value as nat)],
{
    proof {
        reveal_strlit("0");
        reveal_strlit("1");
        reveal_strlit("2");
        reveal_strlit("3");
        reveal_strlit("4");
        reveal_strlit("5");
        reveal_strlit("6");
        reveal_strlit("7");
        reveal_strlit("8");
        reveal_strlit("9");
    }
    let text = if value == 0 {
        "0"
    } else if value == 1 {
        "1"
    } else if value == 2 {
        "2"
    } else if value == 3 {
        "3"
    } else if value == 4 {
        "4"
    } else if value == 5 {
        "5"
    } else if value == 6 {
        "6"
    } else if value == 7 {
        "7"
    } else if value == 8 {
        "8"
    } else {
        "9"
    };
    assert(text@ =~= seq![digit_char(value as nat)]);
    text
}

/// Writes a number in decimal, as the converter's command line takes it.
pub fn decimal(number: u64) -> (text: String)
    ensures
        text@ == decimal_digits(number as nat),
    decreases number,
{
    if number < 10 {
        String::from_str(digit_text(number))
    } else {
        let mut text = decimal(number / 10);
        text.append(digit_text(number % 10));
        assert(decimal_digits((number / 10) as nat) + seq![digit_char((number % 10) as nat)]
            =~= decimal_digits((number / 10) as nat).push(digit_char((number % 10) as nat)));
        text
    }
}

/// Reads the stack size: the size of the first section named `.stack`, in
/// decimal for the converter's command line. `None` if there is no such
/// section.
///
/// The section name comes from the layout file of the runtime; the section
/// has the size, and the place, of the stack of the process binary.
pub fn read_stack_size(sections: &Vec<Section>) -> (stack_size: Option<String>)
    ensures
        stack_size is Some <==> stack_section(sections@, 0) < sections@.len(),
        stack_size matches Some(text) ==> text@ == decimal_digits(
            sections@[stack_section(sections@, 0)].size as nat,
        ),
{
    let wanted = String::from_str(".stack");
    let mut index: usize = 0;
    while index < sections.len()
        invariant
            index <= sections@.len(),
            wanted@ == ".stack"@,
            stack_section(sections@, 0) == stack_section(sections@, index as int),
        decreases sections@.len() - index,
    {
        if sections[index].name == wanted {
            return Some(decimal(sections[index].size));
        }
        index += 1;
    }
    None
}

/// The name under which the executable is handed to the converter. The
/// loader expects the files inside the archive to start with the name of
/// the architecture, and the converter names them after the executable.
pub fn target_elf_name(arch: &str, file_name: &str) -> (name: String)
    ensures
        name@ == arch@ + "."@ + file_name@ + ".elf"@,
{
    let mut name = String::from_str(arch);
    name.append(".");
    name.append(file_name);
    name.append(".elf");
    name
}

/// Builds the command line of the converter: the kernel version it
/// targets, the package name, where to write the archive, the space to
/// reserve for the header, the stack size, and the executable; `-v` where
/// the runner is verbose.
pub fn elf2tab_args(
    cli: &Cli,
    package_name: &str,
    tab_path: &str,
    stack_size: &str,
    elf: &str,
) -> (args: Vec<String>)
    ensures
        args.deep_view() == elf2tab_args_spec(
            package_name@,
            tab_path@,
            stack_size@,
            elf@,
            cli.verbose,
        ),
{
    let mut args: Vec<String> = Vec::new();
    args.push(String::from_str("--kernel-major"));
    args.push(String::from_str("2"));
    args.push(String::from_str("--kernel-minor"));
    args.push(String::from_str("0"));
    args.push(String::from_str("-n"));
    args.push(String::from_str(package_name));
    args.push(String::from_str("-o"));
    args.push(String::from_str(tab_path));
    args.push(String::from_str("--protected-region-size"));
    args.push(decimal(TBF_HEADER_SIZE as u64));
    args.push(String::from_str("--stack"));
    args.push(String::from_str(stack_size));
    args.push(String::from_str(elf));
    if cli.verbose {
        args.push(String::from_str("-v"));
    }
    assert(args.deep_view() =~= elf2tab_args_spec(
        package_name@,
        tab_path@,
        stack_size@,
        elf@,
        cli.verbose,
    ));
    args
}

} // verus!
