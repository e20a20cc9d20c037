//! Errors of the reading pipeline.
use vstd::prelude::*;
use vstd::string::*;

verus! {

/// A failure while handing readings on.
pub enum ServiceError {
    /// A reading could not be sent on the channel; carries the channel's reason.
    ChannelSend(String),
}

impl ServiceError {
    /// The text of the error: `Channel send error: <reason>`.
    pub fn message(&self) -> (r: String)
        ensures
            match self {
                ServiceError::ChannelSend(reason) => r@ == "Channel send error: "@ + reason@,
            },
    {
        match self {
            ServiceError::ChannelSend(reason) => {
                let mut s = String::new();
                s.append("Channel send error: ");
                s.append(reason.as_str());
                proof {
                    assert(s@ =~= "Channel send error: "@ + reason@);
                }
                s
            },
        }
    }
}

} // verus!
