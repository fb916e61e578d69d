//! The command that clears a topic.
use vstd::prelude::*;

use crate::clear::request::ClearRequest;
use crate::text::{
    end_trimmed, eq_ignore_case, is_space, law_case_does_not_matter, same_ignoring_case, texts,
    trim_end,
};

verus! {

/// The arguments of the command.
#[derive(Debug)]
pub struct ClearTopicOpt {
    /// The topic to clear.
    pub topic: String,
    /// Whether consumers start over from the beginning.
    pub reset_hw: bool,
    /// Clear without asking.
    pub confirm: bool,
}

/// Whether an answer agrees: `y` or `yes` in whatever case, with white space behind it or none.
pub open spec fn agrees(answer: Seq<char>) -> bool {
    let trimmed = end_trimmed(answer);
    same_ignoring_case(trimmed, "y"@) || same_ignoring_case(trimmed, "yes"@)
}

/// Whether an answer agrees.
pub fn is_confirmed(answer: &str) -> (r: bool)
    ensures
        r == agrees(answer@),
{
    let trimmed = trim_end(answer);
    eq_ignore_case(trimmed.as_str(), "y") || eq_ignore_case(trimmed.as_str(), "yes")
}

impl ClearTopicOpt {
    /// The question, line by line.
    pub open spec fn question(self) -> Seq<Seq<char>> {
        let none = Seq::<Seq<char>>::empty();
        if self.confirm {
            none
        } else if self.reset_hw {
            none.push(
                "This will clear ALL data for topic '"@ + self.topic@
                    + "' and reset the high watermark."@,
            ).push("Consumers will restart from offset 0. Are you sure? [y/N]"@)
        } else {
            none.push("This will clear ALL data for topic '"@ + self.topic@ + "'."@).push(
                "Are you sure? [y/N]"@,
            )
        }
    }

    /// The question that is put before the topic is cleared; nothing is asked where the command is
    /// confirmed from the start.
    pub fn prompt(&self) -> (lines: Vec<String>)
        ensures
            texts(lines@) == self.question(),
    {
        let mut lines: Vec<String> = Vec::new();
        if !self.confirm {
            let first = "This will clear ALL data for topic '".to_owned().concat(
                self.topic.as_str(),
            );
            if self.reset_hw {
                lines.push(first.concat("' and reset the high watermark."));
                lines.push("Consumers will restart from offset 0. Are you sure? [y/N]".to_owned());
            } else {
                lines.push(first.concat("'."));
                lines.push("Are you sure? [y/N]".to_owned());
            }
        }
        assert(texts(lines@) =~= self.question());
        lines
    }

    /// The request to send, given the answer to the question where one was put; none where the
    /// answer does not agree.
    pub fn request(&self, answer: &str) -> (r: Option<ClearRequest<String>>)
        ensures
            (match r {
                Some(request) => {
                    &&& self.confirm || agrees(answer@)
                    &&& request.target()@ == self.topic@
                    &&& request.resets() == self.reset_hw
                },
                None => !self.confirm && !agrees(answer@),
            }),
    {
        if self.confirm || is_confirmed(answer) {
            Some(ClearRequest::with_reset_hw(self.topic.clone(), self.reset_hw))
        } else {
            None
        }
    }

    /// What is told when the topic is cleared.
    pub fn done(&self) -> (line: String)
        ensures
            line@ == "topic \""@ + self.topic@ + "\" cleared"@,
    {
        "topic \"".to_owned().concat(self.topic.as_str()).concat("\" cleared")
    }
}

/// An answer agrees exactly where it is `y` or `yes`, in capitals or not; white space behind it does not
/// matter, and an empty answer does not agree.
pub proof fn law_what_agrees(answer: Seq<char>, blank: Seq<char>)
    requires
        answer.len() > 0 ==> !is_space(answer.last()),
        forall|i: int| 0 <= i < blank.len() ==> is_space(#[trigger] blank[i]),
    ensures
        agrees(answer + blank) <==> (answer.len() == 1 && (answer[0] == 'y' || answer[0] == 'Y')) || (
        answer.len() == 3 && (answer[0] == 'y' || answer[0] == 'Y') && (answer[1] == 'e' || answer[1]
            == 'E') && (answer[2] == 's' || answer[2] == 'S')),
{
    reveal_strlit("y");
    reveal_strlit("yes");
    lemma_end_trimmed(answer, blank);
    law_case_does_not_matter(answer, "y"@);
    law_case_does_not_matter(answer, "yes"@);
    assert("y"@[0] == 'y');
    assert("yes"@[0] == 'y' && "yes"@[1] == 'e' && "yes"@[2] == 's');
    if answer.len() == 1 {
        assert(answer[0] == answer[0]);
    } else if answer.len() == 3 {
        assert(answer[0] == answer[0] && answer[1] == answer[1] && answer[2] == answer[2]);
    }
}

proof fn lemma_end_trimmed(answer: Seq<char>, blank: Seq<char>)
    requires
        answer.len() > 0 ==> !is_space(answer.last()),
        forall|i: int| 0 <= i < blank.len() ==> is_space(#[trigger] blank[i]),
    ensures
        end_trimmed(answer + blank) == answer,
    decreases blank.len(),
{
    let all = answer + blank;
    if blank.len() > 0 {
        assert(all.last() == blank[blank.len() - 1]);
        assert(all.drop_last() =~= answer + blank.drop_last());
        lemma_end_trimmed(answer, blank.drop_last());
    } else {
        assert(all =~= answer);
    }
}

/// The question names the topic, and says that consumers start over exactly where they do. Nothing is
/// asked where the command is confirmed from the start.
pub proof fn law_question_names_the_topic(opt: ClearTopicOpt)
    ensures
        opt.confirm ==> opt.question().len() == 0,
        !opt.confirm && opt.reset_hw ==> opt.question() == seq![
            "This will clear ALL data for topic '"@ + opt.topic@ + "' and reset the high watermark."@,
            "Consumers will restart from offset 0. Are you sure? [y/N]"@,
        ],
        !opt.confirm && !opt.reset_hw ==> opt.question() == seq![
            "This will clear ALL data for topic '"@ + opt.topic@ + "'."@,
            "Are you sure? [y/N]"@,
        ],
{
    if !opt.confirm && opt.reset_hw {
        assert(opt.question() =~= seq![
            "This will clear ALL data for topic '"@ + opt.topic@ + "' and reset the high watermark."@,
            "Consumers will restart from offset 0. Are you sure? [y/N]"@,
        ]);
    }
    if !opt.confirm && !opt.reset_hw {
        assert(opt.question() =~= seq![
            "This will clear ALL data for topic '"@ + opt.topic@ + "'."@,
            "Are you sure? [y/N]"@,
        ]);
    }
}

} // verus!
