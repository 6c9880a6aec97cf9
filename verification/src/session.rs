//! A session, as far as its own management looks at it.

use vstd::prelude::*;

use crate::conversation::{clone_option, Conversation};
use crate::extension_data::ExtensionData;

verus! {

/// The tokens that requests took, as far as the provider reported them.
#[derive(Debug, Clone, Copy, PartialEq, Eq, Structural)]
pub struct Usage {
    pub input_tokens: Option<i32>,
    pub output_tokens: Option<i32>,
    pub total_tokens: Option<i32>,
}

impl Usage {
    pub fn new(
        input_tokens: Option<i32>,
        output_tokens: Option<i32>,
        total_tokens: Option<i32>,
    ) -> (r: Self)
        ensures
            r == (Usage { input_tokens, output_tokens, total_tokens }),
    {
        Usage { input_tokens, output_tokens, total_tokens }
    }
}

/// What one request took, and of which model.
#[derive(Debug, PartialEq, Eq)]
pub struct ProviderUsage {
    pub model: String,
    pub usage: Usage,
}

impl Clone for ProviderUsage {
    fn clone(&self) -> (r: Self)
        ensures
            r == *self,
    {
        ProviderUsage { model: self.model.clone(), usage: self.usage }
    }
}

#[derive(Debug, PartialEq, Eq)]
pub struct Session {
    pub id: String,
    /// The name of the provider, once one was chosen.
    pub provider_name: Option<String>,
    /// The name of the mode the session runs in.
    pub goose_mode: String,
    /// What the last request took.
    pub usage: Usage,
    /// What all requests together took.
    pub accumulated_usage: Usage,
    pub extension_data: ExtensionData,
    /// The messages, where they were loaded.
    pub conversation: Option<Conversation>,
}

impl Clone for Session {
    fn clone(&self) -> (r: Self)
        ensures
            r.id@ == self.id@,
            r.provider_name == self.provider_name,
            r.goose_mode@ == self.goose_mode@,
            r.usage == self.usage,
            r.accumulated_usage == self.accumulated_usage,
            r.extension_data@ == self.extension_data@,
            match (r.conversation, self.conversation) {
                (Some(a), Some(b)) => a@ == b@,
                (None, None) => true,
                _ => false,
            },
    {
        Session {
            id: self.id.clone(),
            provider_name: clone_option(&self.provider_name),
            goose_mode: self.goose_mode.clone(),
            usage: self.usage,
            accumulated_usage: self.accumulated_usage,
            extension_data: self.extension_data.clone(),
            conversation: match &self.conversation {
                Some(conversation) => Some(conversation.clone()),
                None => None,
            },
        }
    }
}

} // verus!
