use html_saver::Saveable;

/// A realistic Saveable implementation simulating a web-scraping response.
struct ScrapingResult {
    client_id: String,
    date: String,
    time: String,
    status_code: u16,
    action: String,
    html: String,
}

impl Saveable for ScrapingResult {
    fn content(&self) -> &str {
        &self.html
    }

    fn name(&self) -> String {
        format!(
            "{}/{}/{}_{}_{}.html",
            self.client_id, self.date, self.time, self.status_code, self.action,
        )
    }
}

#[test]
fn saveable_scraping_result_content() {
    let req = ScrapingResult {
        client_id: "c".into(),
        date: "d".into(),
        time: "t".into(),
        status_code: 200,
        action: "a".into(),
        html: "<h1>Hello World</h1>".into(),
    };
    assert_eq!(req.content(), "<h1>Hello World</h1>");
}

#[test]
fn saveable_scraping_result_name_format() {
    let req = ScrapingResult {
        client_id: "client-42".into(),
        date: "2024-01-15".into(),
        time: "12-30-00".into(),
        status_code: 200,
        action: "search".into(),
        html: "<html></html>".into(),
    };
    assert_eq!(req.name(), "client-42/2024-01-15/12-30-00_200_search.html");
}

/// Minimal Saveable for simple tests.
struct SimpleDoc {
    name: String,
    html: String,
}

impl Saveable for SimpleDoc {
    fn content(&self) -> &str {
        &self.html
    }

    fn name(&self) -> String {
        self.name.clone()
    }
}

#[test]
fn saveable_simple_doc() {
    let doc = SimpleDoc {
        name: "page.html".into(),
        html: "<p>test</p>".into(),
    };
    assert_eq!(doc.name(), "page.html");
    assert_eq!(doc.content(), "<p>test</p>");
}
