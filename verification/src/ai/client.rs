//! API clients for various AI services.
//!
//! Requests are built and responses read here; sending them over HTTP
//! happens outside this library.

pub mod openai;

use vstd::prelude::*;

verus! {

/// A request to an AI service's API.
///
/// This trait follows a "builder" pattern where elements of the request are
/// built up over time, starting from a default request:
///
/// ```text
/// let request = ConcreteAPIRequest::default()
///     .model(Model::AIModel)
///     .instructions("Be really snarky.")
///     .input("How do I make an API request?");
/// ```
///
/// If a service does not offer a particular feature, its request can do
/// nothing for the accompanying method.
pub trait AIRequest: Sized {
    /// An enum or other data structure providing options for different AI
    /// models, which are specific to each service.
    type Model: AIModel;

    /// Sets the model used by the API request and returns a new request.
    fn model(self, model: Self::Model) -> Self;

    /// Sets specialized instructions for the request and returns a new
    /// request.
    ///
    /// Some AI models allow callers to specify instructions for generating
    /// responses, such as tone, goals, or examples of correct responses.
    fn instructions(self, instructions: String) -> Self;

    /// Sets the request's input and returns a new request.
    ///
    /// The input is often referred to as a "prompt" and is the text for
    /// which an AI service generates a response.
    fn input(self, input: String) -> Self;
}

/// A response from an AI service's API.
pub trait AIResponse {
    /// The text of the response, all of its parts concatenated.
    spec fn concatenated(&self) -> Seq<char>;

    /// Concatenates the output from an AI service into a single string.
    fn concatenate(&self) -> (s: String)
        ensures
            s@ == self.concatenated(),
    ;
}

/// An AI model specification.
pub trait AIModel: Sized {
    /// The service's standard or default model.
    spec fn flagship_model() -> Self;

    /// The "best" model of the service.
    spec fn best_model() -> Self;

    /// The least expensive model of the service.
    spec fn cheapest_model() -> Self;

    /// The fastest model of the service.
    spec fn fastest_model() -> Self;

    /// The service's standard or default model.
    ///
    /// Often this is the same as the [best](AIModel::best()), but there is
    /// no guarantee that is true.
    fn flagship() -> (m: Self)
        ensures
            m == Self::flagship_model(),
    ;

    /// The "best" model available for a given LLM.
    ///
    /// "Best" is obviously subjective, but generally this is the model that
    /// offers the best price/performance ratio, and is what its provider has
    /// defined to be the "best".
    fn best() -> (m: Self)
        ensures
            m == Self::best_model(),
    ;

    /// The least expensive model available for a given LLM.
    fn cheapest() -> (m: Self)
        ensures
            m == Self::cheapest_model(),
    ;

    /// The fastest model available for a given LLM.
    fn fastest() -> (m: Self)
        ensures
            m == Self::fastest_model(),
    ;
}

} // verus!
