use vstd::prelude::*;
use vstd::string::StringExecFns;

verus! {

/// First line of a failure report: `<method>() failed: <message>`.
pub open spec fn failure_line(method_name: Seq<char>, message: Seq<char>) -> Seq<char> {
    method_name + "() failed: "@ + message
}

/// Line for one underlying cause: two spaces, `Caused by: `, the cause.
pub open spec fn cause_line(cause: Seq<char>) -> Seq<char> {
    "  Caused by: "@ + cause
}

/// The lines that report that the call `method_name` failed with an error
/// whose message is `message` and whose chain of underlying causes, outermost
/// first, reads `causes`: the failure line, then one line per cause.
pub fn log_error(method_name: &str, message: &str, causes: &Vec<String>) -> (lines: Vec<String>)
    ensures
        lines@.len() == causes@.len() + 1,
        lines@[0]@ == failure_line(method_name@, message@),
        forall|j: int| 0 <= j < causes@.len() ==> #[trigger] lines@[j + 1]@ == cause_line(causes@[j]@),
{
    let mut lines: Vec<String> = Vec::new();
    let first = String::from_str(method_name).concat("() failed: ").concat(message);
    lines.push(first);
    let mut i: usize = 0;
    while i < causes.len()
        invariant
            i <= causes@.len(),
            lines@.len() == i + 1,
            lines@[0]@ == failure_line(method_name@, message@),
            forall|j: int| 0 <= j < i ==> #[trigger] lines@[j + 1]@ == cause_line(causes@[j]@),
        decreases causes@.len() - i,
    {
        let line = String::from_str("  Caused by: ").concat(causes[i].as_str());
        lines.push(line);
        i = i + 1;
    }
    lines
}

} // verus!
