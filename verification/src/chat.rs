//! One conversation turn and its prompt-template rendering.

use vstd::prelude::*;
use vstd::string::StringExecFns;

verus! {

/// One turn of a conversation: who spoke, and what.
pub struct Message {
    pub role: String,
    pub msg: String,
}

impl Message {
    /// Renders the turn in the chat template: the role line between the
    /// start-of-turn and end-of-turn markers.
    pub fn format(&self) -> (r: String)
        ensures
            r@ == "<|im_start|>"@ + self.role@ + "\n"@ + self.msg@ + "<|im_end|>\n"@,
    {
        let mut r = String::from_str("<|im_start|>");
        r.append(self.role.as_str());
        r.append("\n");
        r.append(self.msg.as_str());
        r.append("<|im_end|>\n");
        r
    }
}

} // verus!
