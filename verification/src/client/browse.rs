use vstd::prelude::*;
use vstd::string::StringExecFns;

use crate::client::listing::{entry_line, format_entries, size_width};
use crate::protocol::messages::ControlMessage;
use crate::text::push_str;

verus! {

/// What `drift ls` shows for the reply to its browse request.
#[derive(Clone, Debug)]
pub enum BrowseOutput {
    /// The lines to print.
    Listing(Vec<String>),
    /// The remote's error message.
    Failed(String),
    /// Any other reply (reported with its debug form).
    Unexpected,
}

/// The output of `drift ls` for a reply: a `host:cwd` header, then `  (empty)` or one line per
/// entry; the remote's error text; or an unexpected reply.
pub fn browse_output(response: &ControlMessage) -> (r: BrowseOutput)
    ensures
        match response {
            ControlMessage::BrowseResponse { hostname, cwd, entries, .. } => r matches BrowseOutput::Listing(
                lines,
            ) && lines@.len() >= 1 && lines@[0]@ == hostname@ + ":"@ + cwd@ && (entries@.len() == 0
                ==> lines@.len() == 2 && lines@[1]@ == "  (empty)"@) && (entries@.len() > 0
                ==> lines@.len() == entries@.len() + 1 && forall|i: int|
                0 <= i < entries@.len() ==> (#[trigger] lines@[i + 1])@ == entry_line(
                entries@[i],
                size_width(entries@),
            )),
            ControlMessage::Error { message, .. } => r matches BrowseOutput::Failed(m) && m@
                == message@,
            _ => r is Unexpected,
        },
{
    match response {
        ControlMessage::BrowseResponse { hostname, cwd, entries, .. } => {
            let mut header = String::new();
            push_str(&mut header, hostname.as_str());
            push_str(&mut header, ":");
            push_str(&mut header, cwd.as_str());
            let mut lines: Vec<String> = Vec::new();
            lines.push(header);
            if entries.len() == 0 {
                lines.push(String::from_str("  (empty)"));
            } else {
                let mut rest = format_entries(entries.as_slice());
                let ghost formatted = rest@;
                lines.append(&mut rest);
                assert forall|i: int| 0 <= i < entries@.len() implies (#[trigger] lines@[i + 1])@
                    == entry_line(entries@[i], size_width(entries@)) by {
                    assert(lines@[i + 1] == formatted[i]);
                }
            }
            BrowseOutput::Listing(lines)
        },
        ControlMessage::Error { message, .. } => BrowseOutput::Failed(message.clone()),
        _ => BrowseOutput::Unexpected,
    }
}

} // verus!
