use vstd::prelude::*;
use crate::tag::TypeTag;
use crate::text::same_text;

verus! {

/// What one invocation of the program is asked to do.
#[derive(Debug)]
pub enum Command {
    /// Not exactly three arguments: show the usage text.
    Help,
    /// The type argument names no supported type.
    UnsupportedFormat,
    /// The operation argument is neither `read` nor `write`.
    UnknownOperation,
    /// Write numbers read from input, as values of the type, to the named file.
    Write(TypeTag, String),
    /// Print the values of the type held in the named file.
    Read(TypeTag, String),
}

/// The command that the arguments `args` (operation, type, file name; the program's
/// own name left out) ask for.
pub fn parse_command(args: &Vec<String>) -> (r: Command)
    ensures
        args@.len() != 3 ==> r is Help,
        args@.len() == 3 && (forall|t: TypeTag| args@[1]@ != #[trigger] t.name())
            ==> r is UnsupportedFormat,
        forall|t: TypeTag|
            args@.len() == 3 && args@[1]@ == #[trigger] t.name() ==> {
                &&& args@[0]@ == "write"@ ==> (r matches Command::Write(u, p) && u == t && p@
                    == args@[2]@)
                &&& args@[0]@ == "read"@ ==> (r matches Command::Read(u, p) && u == t && p@
                    == args@[2]@)
                &&& args@[0]@ != "write"@ && args@[0]@ != "read"@ ==> r is UnknownOperation
            },
{
    if args.len() != 3 {
        return Command::Help;
    }
    match TypeTag::from_name(args[1].as_str()) {
        None => Command::UnsupportedFormat,
        Some(t) => {
            proof {
                assert forall|u: TypeTag| args@[1]@ == #[trigger] u.name() implies u == t by {
                    u.lemma_name_unique(t);
                }
            }
            let r = if same_text(args[0].as_str(), "write") {
                Command::Write(t, args[2].clone())
            } else if same_text(args[0].as_str(), "read") {
                Command::Read(t, args[2].clone())
            } else {
                Command::UnknownOperation
            };
            proof {
                reveal_strlit("write");
                reveal_strlit("read");
                assert("write"@.len() != "read"@.len());
            }
            r
        },
    }
}

} // verus!
