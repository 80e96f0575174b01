//! Command-line options of the embedding program.
//!
//! The embedding program collects its raw arguments and hands them to
//! [`Options::from_cli`], which scans them for the batch file flag. Reading
//! the process environment itself is I/O and stays outside the library.

use vstd::prelude::*;

verus! {

/// The options a run is started with: the path of the batch file to run.
#[derive(Debug, PartialEq, Eq)]
pub struct Options {
    pub batch_file: String,
}

/// The value following the first `--batch-file` flag in the argument list,
/// if the flag occurs and a value follows it.
pub open spec fn batch_file_of(args: Seq<Seq<char>>) -> Option<Seq<char>>
    decreases args.len(),
{
    if args.len() < 2 {
        None
    } else if args[0] == "--batch-file"@ {
        Some(args[1])
    } else {
        batch_file_of(args.drop_first())
    }
}

impl Options {
    /// Reads the options from the given raw command-line arguments: the
    /// batch file path is the argument following the first `--batch-file`
    /// flag. Returns nothing when the flag is absent or stands last.
    pub fn from_cli(args: &Vec<String>) -> (r: Option<Options>)
        ensures
            match r {
                Some(o) => batch_file_of(args.deep_view()) == Some(o.batch_file@),
                None => batch_file_of(args.deep_view()) is None,
            },
    {
        let flag: String = "--batch-file".to_owned();
        let n: usize = args.len();
        let mut i: usize = 0;
        proof {
            assert(args.deep_view().skip(0) =~= args.deep_view());
        }
        while i < n
            invariant
                n == args@.len(),
                i <= n,
                flag@ == "--batch-file"@,
                batch_file_of(args.deep_view()) == batch_file_of(
                    args.deep_view().skip(i as int),
                ),
            decreases n - i,
        {
            if args[i].eq(&flag) {
                if i + 1 < n {
                    return Some(Options { batch_file: args[i + 1].clone() });
                } else {
                    return None;
                }
            }
            proof {
                assert(args.deep_view().skip(i as int).drop_first() =~= args.deep_view().skip(
                    i as int + 1,
                ));
            }
            i = i + 1;
        }
        None
    }
}

} // verus!
