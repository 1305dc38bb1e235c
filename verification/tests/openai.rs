use usaidwat::ai::client::openai::{
    OpenAIClient, OpenAIContent, OpenAIModel, OpenAIOutput, OpenAIRequest, OpenAIResponse,
};
use usaidwat::ai::client::{AIModel, AIRequest, AIResponse};
use usaidwat::ai::Auth;

#[test]
fn it_returns_valid_descriptors() {
    let test_cases = vec![
        (OpenAIModel::ChatGpt4o, "chatgpt-4o-latest"),
        (OpenAIModel::Gpt4o, "gpt-4o"),
        (OpenAIModel::Gpt4omini, "gpt-4o-mini"),
        (OpenAIModel::Gpt4_1, "gpt-4.1"),
        (OpenAIModel::Gpt4_1mini, "gpt-4.1-mini"),
        (OpenAIModel::Gpt4_1nano, "gpt-4.1-nano"),
        (OpenAIModel::O4mini, "o4-mini"),
        (OpenAIModel::O3, "o3"),
        (OpenAIModel::O3mini, "o3-mini"),
        (OpenAIModel::O3pro, "o3-pro"),
        (OpenAIModel::O1, "o1"),
        (OpenAIModel::O1pro, "o1-pro"),
    ];

    for (model, descriptor) in test_cases {
        assert_eq!(model.to_string(), descriptor, "Model::{:?}", model);
    }
}

#[test]
fn the_default_model_is_gpt_4o() {
    assert_eq!(OpenAIModel::default(), OpenAIModel::Gpt4o);
    assert_eq!(OpenAIModel::best(), OpenAIModel::Gpt4o);
    assert_eq!(OpenAIModel::flagship(), OpenAIModel::Gpt4o);
}

#[test]
fn the_cheapest_model_is_also_the_fastest() {
    assert_eq!(OpenAIModel::cheapest(), OpenAIModel::Gpt4_1nano);
    assert_eq!(OpenAIModel::fastest(), OpenAIModel::Gpt4_1nano);
}

#[test]
fn requests_are_built_up_field_by_field() {
    let request = OpenAIRequest::default();
    assert_eq!(request.chosen_model(), OpenAIModel::Gpt4o);
    assert_eq!(request.instructions_text(), None);
    assert_eq!(request.input_text(), "");
    assert!(!request.stored());

    let request = request
        .model(OpenAIModel::Gpt4omini)
        .instructions(String::from("Please treat this as a test."))
        .input(String::from("Serialize me, GPT!"));
    assert_eq!(request.chosen_model(), OpenAIModel::Gpt4omini);
    assert_eq!(request.instructions_text(), Some("Please treat this as a test."));
    assert_eq!(request.input_text(), "Serialize me, GPT!");
    assert!(!request.stored());
}

#[test]
fn setting_the_input_keeps_the_model() {
    let a = OpenAIRequest::default()
        .model(OpenAIModel::O3)
        .input(String::from("write a haiku about ai"));
    let b = OpenAIRequest::default()
        .input(String::from("write a haiku about ai"))
        .model(OpenAIModel::O3);
    assert_eq!(a.chosen_model(), b.chosen_model());
    assert_eq!(a.input_text(), b.input_text());
}

#[test]
fn responses_concatenate_all_their_content_line_by_line() {
    let response = OpenAIResponse::new(vec![
        OpenAIOutput::new(vec![
            OpenAIContent::new(String::from("Silicon whispers,  ")),
            OpenAIContent::new(String::from("Dreams woven in code and light,  ")),
        ]),
        OpenAIOutput::new(vec![]),
        OpenAIOutput::new(vec![OpenAIContent::new(String::from("Thoughts beyond the stars."))]),
    ]);
    assert_eq!(response.output().len(), 3);
    assert_eq!(response.output()[0].content().len(), 2);
    assert_eq!(response.output()[2].content()[0].text(), "Thoughts beyond the stars.");
    assert_eq!(
        response.concatenate(),
        "Silicon whispers,  \nDreams woven in code and light,  \nThoughts beyond the stars."
    );
}

#[test]
fn an_empty_response_concatenates_to_nothing() {
    assert_eq!(OpenAIResponse::new(vec![]).concatenate(), "");
}

#[test]
fn it_keeps_the_api_key() {
    let auth = Auth::new("ThisIsMyApiKey");
    assert_eq!(auth.api_key(), "ThisIsMyApiKey");
    let client = OpenAIClient::new(auth);
    assert_eq!(client.auth().api_key(), "ThisIsMyApiKey");
    assert_eq!(OpenAIClient::base_uri(), "https://api.openai.com/v1/responses");
}
