//! OpenAI API client.
//!
//! When you create a client, you will have to select a [model](OpenAIModel)
//! to use. Read the [OpenAI model documentation](https://platform.openai.com/docs/models)
//! for more information on the various models offered by the OpenAI API.
//!
//! You will need an OpenAI API account and your own authentication key,
//! stored under the `$OPENAI_API_KEY` environment variable for use with
//! [`Auth`]. **You are solely responsible for paying the costs of OpenAI API
//! access**; models are billed per token, and more powerful models cost
//! more. See OpenAI's [pricing](https://platform.openai.com/docs/pricing).

use crate::ai::client::{AIModel, AIRequest, AIResponse};
use crate::ai::Auth;
use crate::text::{join_chars, joined, push_str, string_of, views};
use vstd::prelude::*;

verus! {

broadcast use vstd::string::group_string_axioms;

/// An OpenAI API client.
pub struct OpenAIClient {
    auth: Auth,
}

impl OpenAIClient {
    /// The key the client authenticates with.
    pub closed spec fn key(&self) -> Seq<char> {
        self.auth.key()
    }

    /// Create a new OpenAI client using the given authentication data.
    pub fn new(auth: Auth) -> (c: Self)
        ensures
            c.key() == auth.key(),
    {
        OpenAIClient { auth }
    }

    /// The authentication data of the client.
    pub fn auth(&self) -> (a: &Auth)
        ensures
            a.key() == self.key(),
    {
        &self.auth
    }

    /// The URI that requests are posted to.
    pub fn base_uri() -> (u: &'static str)
        ensures
            u@ == "https://api.openai.com/v1/responses"@,
    {
        "https://api.openai.com/v1/responses"
    }
}

/// Available OpenAI GPT models.
///
/// The [default](OpenAIModel::default) is [gpt-4o](OpenAIModel::Gpt4o),
/// which OpenAI describes as "the best model to use for most tasks". If you
/// are on a budget, consider using [gpt-4.1-nano](OpenAIModel::Gpt4_1nano),
/// the [least expensive](OpenAIModel::cheapest) model.
#[derive(PartialEq, Eq, Structural, Clone, Copy, Debug)]
pub enum OpenAIModel {
    /// The model currently used by ChatGPT.
    ChatGpt4o,
    /// Versatile, high-intelligence flagship model.
    ///
    /// This is the best model to use for most tasks.
    Gpt4o,
    /// A fast, affordable model for focused tasks.
    Gpt4omini,
    /// The flagship model for complex tasks.
    Gpt4_1,
    /// Provides a balance between intelligence, speed, and cost.
    Gpt4_1mini,
    /// The fastest, most cost-effective 4.1 model.
    Gpt4_1nano,
    /// Optimized for fast, effective reasoning.
    O4mini,
    /// A well-rounded and powerful reasoning model across domains.
    O3,
    /// A mini version of the o3 model.
    O3mini,
    /// Like the o3 model, but it uses more compute to think even harder.
    O3pro,
    /// A model trained with reinforcement learning that thinks before it
    /// answers.
    O1,
    /// A version of the [`o1`](OpenAIModel::O1) model that thinks even
    /// harder before responding.
    O1pro,
}

impl Default for OpenAIModel {
    /// gpt-4o.
    fn default() -> (m: Self)
        ensures
            m == OpenAIModel::Gpt4o,
    {
        OpenAIModel::Gpt4o
    }
}

impl OpenAIModel {
    /// The name of the model in the OpenAI API.
    pub open spec fn descriptor(self) -> Seq<char> {
        match self {
            OpenAIModel::ChatGpt4o => "chatgpt-4o-latest"@,
            OpenAIModel::Gpt4o => "gpt-4o"@,
            OpenAIModel::Gpt4omini => "gpt-4o-mini"@,
            OpenAIModel::Gpt4_1 => "gpt-4.1"@,
            OpenAIModel::Gpt4_1mini => "gpt-4.1-mini"@,
            OpenAIModel::Gpt4_1nano => "gpt-4.1-nano"@,
            OpenAIModel::O4mini => "o4-mini"@,
            OpenAIModel::O3 => "o3"@,
            OpenAIModel::O3mini => "o3-mini"@,
            OpenAIModel::O3pro => "o3-pro"@,
            OpenAIModel::O1 => "o1"@,
            OpenAIModel::O1pro => "o1-pro"@,
        }
    }

    /// The name of the model in the OpenAI API, such as "gpt-4o".
    pub fn to_string(&self) -> (s: String)
        ensures
            s@ == self.descriptor(),
    {
        let d = match self {
            OpenAIModel::ChatGpt4o => "chatgpt-4o-latest",
            OpenAIModel::Gpt4o => "gpt-4o",
            OpenAIModel::Gpt4omini => "gpt-4o-mini",
            OpenAIModel::Gpt4_1 => "gpt-4.1",
            OpenAIModel::Gpt4_1mini => "gpt-4.1-mini",
            OpenAIModel::Gpt4_1nano => "gpt-4.1-nano",
            OpenAIModel::O4mini => "o4-mini",
            OpenAIModel::O3 => "o3",
            OpenAIModel::O3mini => "o3-mini",
            OpenAIModel::O3pro => "o3-pro",
            OpenAIModel::O1 => "o1",
            OpenAIModel::O1pro => "o1-pro",
        };
        String::from_str(d)
    }
}

impl AIModel for OpenAIModel {
    open spec fn flagship_model() -> Self {
        OpenAIModel::Gpt4o
    }

    open spec fn best_model() -> Self {
        OpenAIModel::Gpt4o
    }

    open spec fn cheapest_model() -> Self {
        OpenAIModel::Gpt4_1nano
    }

    open spec fn fastest_model() -> Self {
        OpenAIModel::Gpt4_1nano
    }

    /// gpt-4o, OpenAI's flagship model.
    fn flagship() -> (m: Self) {
        OpenAIModel::Gpt4o
    }

    /// The "best" GPT model as defined by OpenAI: the default, gpt-4o.
    fn best() -> (m: Self) {
        OpenAIModel::Gpt4o
    }

    /// gpt-4.1-nano.
    fn cheapest() -> (m: Self) {
        OpenAIModel::Gpt4_1nano
    }

    /// gpt-4.1-nano.
    fn fastest() -> (m: Self) {
        OpenAIModel::Gpt4_1nano
    }
}

/// A body for an OpenAI API request.
pub struct OpenAIRequest {
    model: OpenAIModel,
    instructions: Option<String>,
    input: String,
    store: bool,
}

impl Default for OpenAIRequest {
    /// A request to the default model, without instructions, with empty
    /// input, that OpenAI is asked not to store.
    fn default() -> (r: Self)
        ensures
            r.model_view() == OpenAIModel::Gpt4o,
            r.instructions_view() is None,
            r.input_view() == Seq::<char>::empty(),
            !r.store_view(),
    {
        OpenAIRequest { model: OpenAIModel::Gpt4o, instructions: None, input: String::new(), store: false }
    }
}

impl OpenAIRequest {
    /// The model the request is for.
    pub closed spec fn model_view(&self) -> OpenAIModel {
        self.model
    }

    /// The instructions of the request, if any.
    pub closed spec fn instructions_view(&self) -> Option<Seq<char>> {
        match self.instructions {
            Some(s) => Some(s@),
            None => None,
        }
    }

    /// The input of the request.
    pub closed spec fn input_view(&self) -> Seq<char> {
        self.input@
    }

    /// True if OpenAI is asked to store the request.
    pub closed spec fn store_view(&self) -> bool {
        self.store
    }

    /// The model the request is for.
    pub fn chosen_model(&self) -> (m: OpenAIModel)
        ensures
            m == self.model_view(),
    {
        self.model
    }

    /// The instructions of the request, if any.
    pub fn instructions_text(&self) -> (i: Option<&str>)
        ensures
            i matches Some(s) ==> self.instructions_view() == Some(s@),
            i is None ==> self.instructions_view() is None,
    {
        match &self.instructions {
            Some(s) => Some(s.as_str()),
            None => None,
        }
    }

    /// The input of the request.
    pub fn input_text(&self) -> (i: &str)
        ensures
            i@ == self.input_view(),
    {
        self.input.as_str()
    }

    /// True if OpenAI is asked to store the request.
    pub fn stored(&self) -> (b: bool)
        ensures
            b == self.store_view(),
    {
        self.store
    }
}

impl AIRequest for OpenAIRequest {
    /// This request uses OpenAI GPT-specific [models](OpenAIModel).
    type Model = OpenAIModel;

    /// Sets the model used by the OpenAI API request.
    ///
    /// If not specified, the [default](OpenAIModel::default) model, gpt-4o,
    /// is used.
    fn model(self, model: OpenAIModel) -> (r: Self)
        ensures
            r.model_view() == model,
            r.instructions_view() == self.instructions_view(),
            r.input_view() == self.input_view(),
            r.store_view() == self.store_view(),
    {
        OpenAIRequest { model, ..self }
    }

    /// Sets optional instructions for the request.
    ///
    /// Instructions provide high-level instructions on how a GPT model should
    /// behave while generating a response, and take precedence over the
    /// [`input`](OpenAIRequest::input).
    fn instructions(self, instructions: String) -> (r: Self)
        ensures
            r.model_view() == self.model_view(),
            r.instructions_view() == Some(instructions@),
            r.input_view() == self.input_view(),
            r.store_view() == self.store_view(),
    {
        OpenAIRequest { instructions: Some(instructions), ..self }
    }

    /// Sets the request's input.
    ///
    /// This is sometimes referred to as a "prompt".
    fn input(self, input: String) -> (r: Self)
        ensures
            r.model_view() == self.model_view(),
            r.instructions_view() == self.instructions_view(),
            r.input_view() == input@,
            r.store_view() == self.store_view(),
    {
        OpenAIRequest { input, ..self }
    }
}

/// Content of GPT output.
pub struct OpenAIContent {
    text: String,
}

impl OpenAIContent {
    /// The generated text.
    pub closed spec fn text_view(&self) -> Seq<char> {
        self.text@
    }

    /// Content holding `text`.
    pub fn new(text: String) -> (c: Self)
        ensures
            c.text_view() == text@,
    {
        OpenAIContent { text }
    }

    /// Generated GPT text.
    pub fn text(&self) -> (t: &str)
        ensures
            t@ == self.text_view(),
    {
        self.text.as_str()
    }
}

/// Generated GPT output.
pub struct OpenAIOutput {
    content: Vec<OpenAIContent>,
}

impl OpenAIOutput {
    /// The pieces of content, in order.
    pub closed spec fn content_view(&self) -> Seq<OpenAIContent> {
        self.content@
    }

    /// Output made of `content`.
    pub fn new(content: Vec<OpenAIContent>) -> (o: Self)
        ensures
            o.content_view() == content@,
    {
        OpenAIOutput { content }
    }

    /// Contents of the GPT API response.
    ///
    /// There should be at least one piece of content in the output, but
    /// there could be multiple content objects.
    pub fn content(&self) -> (c: &[OpenAIContent])
        ensures
            c@ == self.content_view(),
    {
        self.content.as_slice()
    }
}

/// The texts of all the content of `outputs`, output by output.
pub open spec fn output_texts(outputs: Seq<OpenAIOutput>) -> Seq<Seq<char>>
    decreases outputs.len(),
{
    if outputs.len() == 0 {
        seq![]
    } else {
        output_texts(outputs.drop_last()) + outputs.last().content_view().map_values(
            |c: OpenAIContent| c.text_view(),
        )
    }
}

/// A response from the OpenAI API.
pub struct OpenAIResponse {
    output: Vec<OpenAIOutput>,
}

impl OpenAIResponse {
    /// The outputs, in order.
    pub closed spec fn output_view(&self) -> Seq<OpenAIOutput> {
        self.output@
    }

    /// A response made of `output`.
    pub fn new(output: Vec<OpenAIOutput>) -> (r: Self)
        ensures
            r.output_view() == output@,
    {
        OpenAIResponse { output }
    }

    /// GPT response output.
    ///
    /// There should be at least one item in the output, but there could be
    /// multiple output objects.
    pub fn output(&self) -> (o: &[OpenAIOutput])
        ensures
            o@ == self.output_view(),
    {
        self.output.as_slice()
    }
}

impl AIResponse for OpenAIResponse {
    /// The texts of all the content of all outputs, one per line.
    open spec fn concatenated(&self) -> Seq<char> {
        joined(output_texts(self.output_view()), seq!['\n'])
    }

    fn concatenate(&self) -> (s: String) {
        let mut texts: Vec<Vec<char>> = Vec::new();
        for i in 0..self.output.len()
            invariant
                views(texts@) == output_texts(self.output@.take(i as int)),
        {
            let content = self.output[i].content();
            let ghost before = views(texts@);
            let ghost f = |c: OpenAIContent| c.text_view();
            for j in 0..content.len()
                invariant
                    i < self.output@.len(),
                    content@ == self.output@[i as int].content_view(),
                    f == (|c: OpenAIContent| c.text_view()),
                    views(texts@) == before + content@.take(j as int).map_values(f),
            {
                let mut t: Vec<char> = Vec::new();
                push_str(&mut t, content[j].text());
                assert(t@ =~= content@[j as int].text_view());
                let ghost old_texts = texts@;
                texts.push(t);
                assert(views(texts@) =~= views(old_texts) + seq![t@]);
                assert(content@.take(j as int + 1).map_values(f) =~= content@.take(j as int).map_values(f)
                    + seq![f(content@[j as int])]);
                assert(views(texts@) =~= before + content@.take(j as int + 1).map_values(f));
            }
            assert(content@.take(content@.len() as int) =~= content@);
            assert(self.output@.take(i as int + 1).drop_last() =~= self.output@.take(i as int));
            assert(self.output@.take(i as int + 1).last() == self.output@[i as int]);
        }
        assert(self.output@.take(self.output@.len() as int) =~= self.output@);
        let n = texts.len();
        let sep = vec!['\n'];
        assert(sep@ =~= seq!['\n']);
        let joined_text = join_chars(&texts, n, &sep);
        assert(views(texts@).take(n as int) =~= views(texts@));
        string_of(&joined_text)
    }
}

} // verus!
