use hacktyper::config::Config;

#[test]
fn default_config_values() {
    let c = Config::default();
    assert_eq!(c.api_endpoint, "https://api.openai.com/v1/chat/completions");
    assert_eq!(c.api_key, "YOUR_API_KEY_HERE");
    assert_eq!(c.model, "gpt-3.5-turbo");
}
