//! Who decides whether a client may download.

use crate::models::{mnemonic_words, ClientId};
use crate::text::{is_yes, means_yes};
use vstd::prelude::*;
use vstd::string::StringExecFns;

verus! {

/// The approver could not come to a decision.
#[derive(Clone, Copy, Debug, PartialEq, Eq, Structural)]
pub struct ApproverErr;

/// Something that approves or rejects clients.
pub trait ClientApprover {
    /// Submits a client for approval. The result is true if the client is approved.
    fn submit(&self, client_id: ClientId) -> Result<bool, ApproverErr>;
}

/// The question about a client whose name is `name`.
pub open spec fn question_text(name: Seq<char>) -> Seq<char> {
    "Approve '"@ + name + "'?"@
}

/// Interactive approval on a console: a question is printed and an answer is read.
pub struct ConsoleApprover;

impl ConsoleApprover {
    /// The question about a client, whose key is spelled out in words.
    pub fn question(client_id: &ClientId) -> (r: String)
        requires
            client_id.key().len() <= usize::MAX / 16,
        ensures
            r@ == question_text(mnemonic_words(client_id.key())),
    {
        let pubkey_mnemonic = client_id.key_words();
        let mut question = String::from_str("Approve '");
        question.append(pubkey_mnemonic.as_str());
        question.append("'?");
        question
    }

    /// The decision that an answer stands for. An answer that could not be read is none.
    pub fn decision(answer: Option<String>) -> (r: Result<bool, ApproverErr>)
        ensures
            match answer {
                Some(text) => r == Ok::<bool, ApproverErr>(means_yes(text@)),
                None => r is Err,
            },
    {
        match answer {
            Some(text) => Ok(is_yes(text.as_str())),
            None => Err(ApproverErr),
        }
    }
}

/// The question is about the client: its name stands in it as it is, between quotes.
pub proof fn law_question_names_the_client(name: Seq<char>)
    ensures
        ({
            let text = question_text(name);
            &&& text.len() == 9 + name.len() + 2
            &&& text.take(9) == "Approve '"@
            &&& text.subrange(9, (9 + name.len()) as int) == name
            &&& text.skip((9 + name.len()) as int) == "'?"@
        }),
{
    reveal_strlit("Approve '");
    reveal_strlit("'?");
    let text = question_text(name);
    assert(text.take(9) =~= "Approve '"@);
    assert(text.subrange(9, (9 + name.len()) as int) =~= name);
    assert(text.skip((9 + name.len()) as int) =~= "'?"@);
}

/// The decision is what the user said: yes approves, anything else denies, and an answer that could not be
/// read decides nothing.
pub proof fn law_decision_is_the_answer(answer: Option<String>, r: Result<bool, ApproverErr>)
    requires
        call_ensures(ConsoleApprover::decision, (answer,), r),
    ensures
        r is Err <==> answer is None,
        r == Ok::<bool, ApproverErr>(true) <==> (answer matches Some(text) && means_yes(text@)),
        r == Ok::<bool, ApproverErr>(false) <==> (answer matches Some(text) && !means_yes(text@)),
{
}

} // verus!
