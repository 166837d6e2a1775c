use media_source::scrape::{
    extract_attr, find_client_id, scrape_client_id, script_urls, ClientIdCache, ScrapeStep,
};

#[test]
fn find_client_id_from_bundle_forms() {
    assert_eq!(
        find_client_id(r#"foo,client_id:"abcdefghij0123456789",bar"#).as_deref(),
        Some("abcdefghij0123456789")
    );
    assert_eq!(
        find_client_id(r#"{"client_id":"ABCDEFGHIJ0123456789"}"#).as_deref(),
        Some("ABCDEFGHIJ0123456789")
    );
    assert_eq!(find_client_id(r#"client_id:"short""#), None);
    assert_eq!(find_client_id("no id here"), None);
}

#[test]
fn extract_attr_reads_src() {
    let chunk = r#" crossorigin src="https://a-v2.sndcdn.com/assets/0-abc.js"></script>"#;
    assert_eq!(
        extract_attr(chunk, "src"),
        Some("https://a-v2.sndcdn.com/assets/0-abc.js")
    );
    assert_eq!(extract_attr("<div>", "src"), None);
}

#[test]
fn extract_attr_edges() {
    assert_eq!(extract_attr(r#"src="""#, "src"), Some(""));
    assert_eq!(extract_attr(r#"src="open"#, "src"), None);
    assert_eq!(extract_attr(r#"src='x'"#, "src"), None);
    assert_eq!(extract_attr(r#"é src="ü" src="z""#, "src"), Some("ü"));
    assert_eq!(extract_attr(r#"="v""#, ""), Some("v"));
}

#[test]
fn client_id_edges() {
    let sixteen = "0123456789abcdEF";
    assert_eq!(find_client_id(&format!("client_id=\"{sixteen}\"")).as_deref(), Some(sixteen));
    assert_eq!(find_client_id(&format!("client_id:\"{sixteen}")).as_deref(), Some(sixteen));
    assert_eq!(find_client_id("client_id:\"0123456789abcde\""), None);
    assert_eq!(find_client_id("client_id:\"0123456789abcd-f\""), None);
    assert_eq!(find_client_id("client_id:\"0123456789abcdeé\""), None);
    // Only the first place of each form counts.
    assert_eq!(find_client_id(&format!("client_id:\"no\" client_id:\"{sixteen}\"")), None);
    // The forms are tried in order, wherever they stand.
    let both = format!("client_id=\"ZZZZZZZZZZZZZZZZ\" client_id:\"{sixteen}\"");
    assert_eq!(find_client_id(&both).as_deref(), Some(sixteen));
    let second = format!("client_id:\"no\" \"client_id\":\"{sixteen}\"");
    assert_eq!(find_client_id(&second).as_deref(), Some(sixteen));
}

const PAGE: &str = r#"<html src="https://a.sndcdn.com/assets/page.js">
<script src="https://a.sndcdn.com/assets/1.js"></script>
<script>var x;</script>
<script src="https://elsewhere.com/2.js"></script>
<script src="https://a.sndcdn.com/assets/3.css"></script>
<script crossorigin src="https://a.sndcdn.com/assets/4.js"></script>"#;

#[test]
fn bundles_of_the_homepage() {
    assert_eq!(
        script_urls(PAGE),
        vec![
            "https://a.sndcdn.com/assets/page.js",
            "https://a.sndcdn.com/assets/1.js",
            "https://a.sndcdn.com/assets/4.js",
        ]
    );
    assert!(script_urls("").is_empty());
}

fn scrape(html: &str, fetch: impl Fn(&str) -> Option<String>) -> (Vec<String>, Result<String, String>) {
    let mut asked = Vec::new();
    let mut step = scrape_client_id(html);
    loop {
        match step {
            ScrapeStep::Fetch { url, scan } => {
                let js = fetch(&url);
                asked.push(url);
                step = scan.on_bundle(js);
            }
            ScrapeStep::Done(result) => return (asked, result),
        }
    }
}

#[test]
fn the_newest_bundle_with_an_id_decides() {
    let (asked, result) = scrape(PAGE, |url| {
        if url.ends_with("4.js") {
            None
        } else if url.ends_with("1.js") {
            Some("client_id:\"aaaaaaaaaaaaaaaa\"".to_string())
        } else {
            Some("client_id:\"bbbbbbbbbbbbbbbb\"".to_string())
        }
    });
    assert_eq!(
        asked,
        vec!["https://a.sndcdn.com/assets/4.js", "https://a.sndcdn.com/assets/1.js"]
    );
    assert_eq!(result, Ok("aaaaaaaaaaaaaaaa".to_string()));
}

#[test]
fn no_bundle_holds_an_id() {
    let message = "SoundCloud: couldn't extract a client_id from the web player";
    let (asked, result) = scrape(PAGE, |_| Some(String::new()));
    assert_eq!(asked.len(), 3);
    assert_eq!(result, Err(message.to_string()));
    assert_eq!(scrape("", |_| None), (Vec::new(), Err(message.to_string())));
}

#[test]
fn the_client_id_is_cached() {
    let mut cache = ClientIdCache { id: None };
    assert_eq!(cache.client_id(false), None);
    assert_eq!(cache.store(Err("down".to_string())), Err("down".to_string()));
    assert_eq!(cache.client_id(false), None);
    assert_eq!(cache.store(Ok("one".to_string())), Ok("one".to_string()));
    assert_eq!(cache.client_id(false).as_deref(), Some("one"));
    assert_eq!(cache.client_id(true), None);
    assert_eq!(cache.store(Err("down".to_string())), Err("down".to_string()));
    assert_eq!(cache.client_id(false).as_deref(), Some("one"));
    assert_eq!(cache.store(Ok("two".to_string())), Ok("two".to_string()));
    assert_eq!(cache.client_id(false).as_deref(), Some("two"));
}
