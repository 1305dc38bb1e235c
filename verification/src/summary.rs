//! AI summarization.
//!
//! The text sent to the AI service for summarization is built here; sending
//! it and reading the answer happen outside this library.

use crate::ai::client::openai::{OpenAIModel, OpenAIRequest, OpenAIResponse};
use crate::ai::client::{AIRequest, AIResponse};
use crate::client::Redditor;
use crate::markdown::bare;
use crate::markdown::bare::bare_text;
use crate::markdown::markdown_tree;
use crate::text::{
    chars_of, fill, filled, html_entities_converted, join_chars, joined, push_str, replace_seq,
    replaced, string_of, views,
};
use crate::thing::Comment;
use vstd::prelude::*;

verus! {

broadcast use vstd::string::group_string_axioms;

/// The bare text of a comment: its body with Markdown formatting removed.
pub open spec fn bare_body(c: Comment) -> Seq<char> {
    bare_text(markdown_tree(html_entities_converted(c.body@), true, true))
}

/// The bare texts of `comments`, separated by blank lines.
pub open spec fn context_of(comments: Seq<Comment>) -> Seq<char> {
    joined(comments.map_values(|c: Comment| bare_body(c)), seq!['\n', '\n'])
}

/// The prompt on a single line: its line breaks turned into spaces.
pub open spec fn preamble_of(prompt: Seq<char>) -> Seq<char> {
    replaced(prompt, seq!['\n'], seq![' '])
}

/// Summarizes a Redditor's comments and provides a sentiment analysis using
/// AI.
pub struct Summarizer<'a> {
    user: &'a Redditor,
    prompt: String,
    model: OpenAIModel,
}

impl<'a> Summarizer<'a> {
    /// The Redditor whose comments are summarized.
    pub closed spec fn user_view(&self) -> Redditor {
        *self.user
    }

    /// The instructions that precede the comments.
    pub closed spec fn prompt_view(&self) -> Seq<char> {
        self.prompt@
    }

    /// The AI model used for summarization.
    pub closed spec fn model_view(&self) -> OpenAIModel {
        self.model
    }

    /// Summarizes content from the given `user`, with `prompt` as the
    /// instructions that precede it, using the default model.
    pub fn new(user: &'a Redditor, prompt: &str) -> (s: Self)
        ensures
            s.user_view() == *user,
            s.prompt_view() == prompt@,
            s.model_view() == OpenAIModel::Gpt4o,
    {
        Summarizer { user, prompt: String::from_str(prompt), model: OpenAIModel::Gpt4o }
    }

    /// Sets the AI model used for summarization.
    pub fn model(self, model: OpenAIModel) -> (s: Self)
        ensures
            s.user_view() == self.user_view(),
            s.prompt_view() == self.prompt_view(),
            s.model_view() == model,
    {
        Summarizer { model, ..self }
    }

    /// Raw content that will be sent to an LLM for summarization.
    ///
    /// This is all of the Redditor's comments stripped of formatting,
    /// separated by blank lines. It does not include the introductory
    /// instructions set by the [preamble](Summarizer::preamble()).
    pub fn context(&self) -> (s: String)
        ensures
            s@ == context_of(self.user_view().user_view().comments_view()),
    {
        let comments = self.user.comments();
        let mut texts: Vec<Vec<char>> = Vec::new();
        for i in 0..comments.len()
            invariant
                comments@ == self.user_view().user_view().comments_view(),
                texts@.len() == i,
                forall|k: int| 0 <= k < i ==> (#[trigger] texts@[k])@ == bare_body(comments@[k]),
        {
            let text = bare::parse(comments[i].body());
            texts.push(chars_of(text.as_str()));
        }
        let sep = vec!['\n', '\n'];
        assert(sep@ =~= seq!['\n', '\n']);
        let r = join_chars(&texts, texts.len(), &sep);
        assert(views(texts@).take(texts@.len() as int) =~= comments@.map_values(|c: Comment| bare_body(c)));
        string_of(&r)
    }

    /// The initial prompt sent to the LLM: the instructions occurring before
    /// the text to be summarized, on one line.
    pub fn preamble(&self) -> (s: String)
        ensures
            s@ == preamble_of(self.prompt_view()),
    {
        let prompt = chars_of(self.prompt.as_str());
        let nl = vec!['\n'];
        let space = vec![' '];
        assert(nl@ =~= seq!['\n']);
        assert(space@ =~= seq![' ']);
        string_of(&replace_seq(&prompt, &nl, &space))
    }

    /// The full input sent to the LLM: the [preamble](Summarizer::preamble()),
    /// a blank line and the [context](Summarizer::context()).
    pub fn input(&self) -> (s: String)
        ensures
            s@ == preamble_of(self.prompt_view()) + seq!['\n', '\n'] + context_of(
                self.user_view().user_view().comments_view(),
            ),
    {
        let mut s: Vec<char> = Vec::new();
        push_str(&mut s, self.preamble().as_str());
        s.push('\n');
        s.push('\n');
        push_str(&mut s, self.context().as_str());
        string_of(&s)
    }

    /// The request that asks the AI service for the summary: the input, for
    /// the chosen model.
    pub fn request(&self) -> (r: OpenAIRequest)
        ensures
            r.model_view() == self.model_view(),
            r.instructions_view() is None,
            r.input_view() == preamble_of(self.prompt_view()) + seq!['\n', '\n'] + context_of(
                self.user_view().user_view().comments_view(),
            ),
            !r.store_view(),
    {
        OpenAIRequest::default().model(self.model).input(self.input())
    }
}

/// The summary of `response`, wrapped to `width` columns: its parts joined
/// by newlines, then filled with `textwrap` and no indent.
pub fn summary_text(response: &OpenAIResponse, width: usize) -> (s: String)
    ensures
        s@ == filled(response.concatenated(), width, seq![], seq![]),
{
    let text = response.concatenate();
    proof {
        reveal_strlit("");
        assert(""@ =~= Seq::<char>::empty());
    }
    fill(text.as_str(), width, "", "")
}

} // verus!
