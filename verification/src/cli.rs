//! The arguments of the command line, once they have been read.
//!
//! The tool is run as a subcommand of `cargo`, so the first argument behind
//! the program's name is the subcommand's own name.
use vstd::prelude::*;
use crate::text::{push_str, str_eq, string_of};

verus! {

/// What the command line asks for.
#[derive(Debug, PartialEq, Eq)]
pub struct Args {
    /// The package to merge.
    pub package_name: Option<String>,
    /// Where to write the merged text.
    pub output_path: Option<String>,
    /// Whether every package of the workspace is to be merged.
    pub process_all: bool,
}

/// Why the arguments are refused.
#[derive(Debug, PartialEq, Eq)]
pub enum ArgsError {
    /// The subcommand's name is missing.
    Usage,
    /// `--output` is the last argument.
    OutputNeedsPath,
    /// A second package name.
    UnexpectedArgument { argument: String },
}

/// What an [`Args`] holds.
pub ghost struct ArgsView {
    pub package_name: Option<Seq<char>>,
    pub output_path: Option<Seq<char>>,
    pub process_all: bool,
}

/// What an [`ArgsError`] holds.
pub ghost enum ArgsErrorView {
    Usage,
    OutputNeedsPath,
    UnexpectedArgument { argument: Seq<char> },
}

impl DeepView for Args {
    type V = ArgsView;

    open spec fn deep_view(&self) -> ArgsView {
        ArgsView {
            package_name: self.package_name.deep_view(),
            output_path: self.output_path.deep_view(),
            process_all: self.process_all,
        }
    }
}

impl DeepView for ArgsError {
    type V = ArgsErrorView;

    open spec fn deep_view(&self) -> ArgsErrorView {
        match self {
            ArgsError::Usage => ArgsErrorView::Usage,
            ArgsError::OutputNeedsPath => ArgsErrorView::OutputNeedsPath,
            ArgsError::UnexpectedArgument { argument } => ArgsErrorView::UnexpectedArgument {
                argument: argument@,
            },
        }
    }
}

/// The arguments from index `i` on, read into `so_far`.
///
/// `--output` takes the next argument as the output path, `--all` asks for
/// every package, and any other argument is the package name, which may be
/// given once.
pub open spec fn parsed_from(args: Seq<Seq<char>>, i: int, so_far: ArgsView) -> Result<
    ArgsView,
    ArgsErrorView,
>
    decreases args.len() - i,
{
    if i < 0 || i >= args.len() {
        Ok(so_far)
    } else if args[i] == "--output"@ {
        if i + 1 < args.len() {
            parsed_from(args, i + 2, ArgsView { output_path: Some(args[i + 1]), ..so_far })
        } else {
            Err(ArgsErrorView::OutputNeedsPath)
        }
    } else if args[i] == "--all"@ {
        parsed_from(args, i + 1, ArgsView { process_all: true, ..so_far })
    } else if so_far.package_name is None {
        parsed_from(args, i + 1, ArgsView { package_name: Some(args[i]), ..so_far })
    } else {
        Err(ArgsErrorView::UnexpectedArgument { argument: args[i] })
    }
}

/// What a whole command line asks for. The program's name comes first and
/// the subcommand's name, `rustmerge`, second.
pub open spec fn parsed_args(args: Seq<Seq<char>>) -> Result<ArgsView, ArgsErrorView> {
    if args.len() < 2 || args[1] != "rustmerge"@ {
        Err(ArgsErrorView::Usage)
    } else {
        parsed_from(
            args,
            2,
            ArgsView { package_name: None, output_path: None, process_all: false },
        )
    }
}

/// What reading a command line reports.
pub open spec fn args_outcome(r: Result<Args, ArgsError>) -> Result<ArgsView, ArgsErrorView> {
    match r {
        Ok(args) => Ok(args.deep_view()),
        Err(e) => Err(e.deep_view()),
    }
}

/// Reads a command line.
pub fn parse_args(args: &Vec<String>) -> (r: Result<Args, ArgsError>)
    ensures
        args_outcome(r) == parsed_args(args.deep_view()),
{
    let ghost all = args.deep_view();
    if args.len() < 2 {
        return Err(ArgsError::Usage);
    }
    assert(all[1] == args@[1]@);
    if !str_eq(args[1].as_str(), "rustmerge") {
        return Err(ArgsError::Usage);
    }
    let mut found = Args { package_name: None, output_path: None, process_all: false };
    let mut i: usize = 2;
    while i < args.len()
        invariant
            2 <= i <= args.len() + 1,
            all == args.deep_view(),
            parsed_from(all, i as int, found.deep_view()) == parsed_args(all),
        decreases args.len() + 1 - i,
    {
        assert(all[i as int] == args@[i as int]@);
        if str_eq(args[i].as_str(), "--output") {
            if i + 1 < args.len() {
                assert(all[i + 1] == args@[i + 1]@);
                found.output_path = Some(args[i + 1].clone());
                i = i + 1;
            } else {
                return Err(ArgsError::OutputNeedsPath);
            }
        } else if str_eq(args[i].as_str(), "--all") {
            found.process_all = true;
        } else if found.package_name.is_none() {
            found.package_name = Some(args[i].clone());
        } else {
            return Err(ArgsError::UnexpectedArgument { argument: args[i].clone() });
        }
        i = i + 1;
    }
    Ok(found)
}

/// How the tool is called.
pub open spec fn usage_text() -> Seq<char> {
    "Usage: cargo rustmerge [--all] [<package_name>] [--output <path>]"@
}

/// The message of an error.
pub open spec fn args_message(e: ArgsErrorView) -> Seq<char> {
    match e {
        ArgsErrorView::Usage => usage_text(),
        ArgsErrorView::OutputNeedsPath => "Error: --output option requires a path"@,
        ArgsErrorView::UnexpectedArgument { argument } => "Error: Unexpected argument '"@
            + argument + "'"@,
    }
}

impl ArgsError {
    /// The message of the error.
    pub fn message(&self) -> (r: String)
        ensures
            r@ == args_message(self.deep_view()),
    {
        let mut out: Vec<char> = Vec::new();
        match self {
            ArgsError::Usage => {
                push_str(
                    &mut out,
                    "Usage: cargo rustmerge [--all] [<package_name>] [--output <path>]",
                );
            },
            ArgsError::OutputNeedsPath => {
                push_str(&mut out, "Error: --output option requires a path");
            },
            ArgsError::UnexpectedArgument { argument } => {
                push_str(&mut out, "Error: Unexpected argument '");
                push_str(&mut out, argument.as_str());
                push_str(&mut out, "'");
            },
        }
        assert(out@ =~= args_message(self.deep_view()));
        string_of(&out)
    }
}

} // verus!
