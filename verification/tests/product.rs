use tikclip::json::{get, parse_json};
use tikclip::product::{
    attach_media_files, check_product_url, empty_product_data, file_extension,
    finish_product_fetch, http_failure_message, max_media_bytes, media_download_items,
    media_content_type, media_file_name, parse_product_html, product_id_from_final_url, read_product_page,
    wants_media_download, FetchedProductMediaFile, answer_product_fetch, ProductPageLoad,
};
use tikclip::product_html::find_script_text_by_type;
use tikclip::product_json::{
    description_from_product_model, find_product_model_in_loader,
    gallery_image_urls_from_product_model, parse_product_model_root,
    video_urls_from_product_model_videos,
};

#[test]
fn parses_og_and_product_id_from_html() {
    let html = r#"
      <html><head>
        <meta content="Demo Product" property="og:title">
        <meta property="og:description" content="Short copy">
        <meta property="og:image" content="https://cdn.example/a.jpg">
      </head></html>
    "#;

    let product = parse_product_html(html, "https://shop.tiktok.com/view/product/12345?x=1");

    assert_eq!(product.name.as_deref(), Some("Demo Product"));
    assert_eq!(product.description.as_deref(), Some("Short copy"));
    assert_eq!(product.tiktok_shop_id.as_deref(), Some("12345"));
    assert_eq!(product.image_urls, vec!["https://cdn.example/a.jpg"]);
}

#[test]
fn json_ld_fills_fallback_fields() {
    let html = r#"
      <script type="application/ld+json">
      {"@type":"Product","name":"JSON Product","description":"Long","image":["https://cdn/img.jpg"],"category":"Beauty","sku":"sku-7","offers":{"price":"12.5"}}
      </script>
    "#;

    let product = parse_product_html(html, "https://example.test/p");

    assert_eq!(product.name.as_deref(), Some("JSON Product"));
    assert_eq!(product.price_text.as_deref(), Some("12.5"));
    let price: Option<f64> = product.price_text.as_deref().and_then(|p| p.parse().ok());
    assert_eq!(price, Some(12.5));
    assert_eq!(product.category.as_deref(), Some("Beauty"));
    assert_eq!(product.tiktok_shop_id.as_deref(), Some("sku-7"));
}

#[test]
fn parses_loader_product_model_gallery_and_description() {
    let html = r#"
      <script type="application/json">{
        "loaderData": {
          "page": {
            "page_config": {
              "components_map": [{
                "component_data": {
                  "product_info": {
                    "product_model": {
                      "product_id": "p1",
                      "description": "[{\"type\":\"text\",\"text\":\"Line one\"},{\"type\":\"image\"},{\"type\":\"text\",\"text\":\"Line two\"}]",
                      "images": [
                        {"url_list":["https://cdn/a.jpg","https://cdn/a-small.jpg"]},
                        {"url_list":["https://cdn/b.webp"]}
                      ],
                      "videos": {"play_addr": {"url_list": ["https://cdn/v.mp4", "https://cdn/v.m3u8"]}}
                    }
                  }
                }
              }]
            }
          }
        }
      }</script>
    "#;

    let chars: Vec<char> = html.chars().collect();
    let scripts = find_script_text_by_type(&chars, "application/json");
    let root = parse_product_model_root(&scripts).expect("loader document");
    let product_model = find_product_model_in_loader(&root).expect("product model");

    assert_eq!(
        description_from_product_model(product_model).as_deref(),
        Some("Line one\nLine two")
    );
    assert_eq!(
        gallery_image_urls_from_product_model(product_model),
        vec!["https://cdn/a.jpg", "https://cdn/b.webp"]
    );
    assert_eq!(
        video_urls_from_product_model_videos(get(product_model, "videos"), 8),
        vec!["https://cdn/v.mp4", "https://cdn/v.m3u8"]
    );
    let page = parse_product_html(html, "https://example.test/p");
    assert_eq!(page.description.as_deref(), Some("Line one\nLine two"));
    assert_eq!(page.image_urls, vec!["https://cdn/a.jpg", "https://cdn/b.webp"]);
    assert_eq!(page.video_urls, vec!["https://cdn/v.mp4", "https://cdn/v.m3u8"]);
}

#[test]
fn product_id_from_final_url_requires_digits() {
    assert_eq!(
        product_id_from_final_url("https://x/view/product/998877/foo").as_deref(),
        Some("998877")
    );
    assert_eq!(product_id_from_final_url("https://x/view/product/abc"), None);
}

#[test]
fn description_accepts_array_value() {
    let text = r#"{
        "description": [
            {"type": "text", "text": "A"},
            {"type": "text", "text": "B"}
        ]
    }"#;
    let chars: Vec<char> = text.chars().collect();
    let product_model = parse_json(&chars).unwrap();

    assert_eq!(
        description_from_product_model(&product_model).as_deref(),
        Some("A B")
    );
}

#[test]
fn product_url_must_not_be_blank() {
    assert_eq!(check_product_url("  https://x/p  ").ok().as_deref(), Some("https://x/p"));
    let resp = check_product_url("   ").err().unwrap();
    assert!(!resp.success);
    assert!(!resp.incomplete);
    assert_eq!(resp.error.as_deref(), Some("URL is required"));
}

#[test]
fn http_failure_message_names_status() {
    assert_eq!(http_failure_message(403), "HTTP 403 from TikTok");
}

#[test]
fn security_page_is_answered_as_incomplete() {
    let html = "<html><title>Security Check</title><div>captcha</div></html>";
    let resp = read_product_page(html, "https://x/p").err().unwrap();
    assert!(resp.incomplete);
    assert!(!resp.success);
    assert!(resp.error.unwrap().starts_with("TikTok returned a security or captcha page."));
    assert!(read_product_page("<html><title>Lipstick</title></html>", "https://x/p").is_ok());
}

#[test]
fn media_names_extensions_and_limits() {
    assert_eq!(media_file_name("image", 7, ".jpg"), "image_007.jpg");
    assert_eq!(media_file_name("video", 1234, ".mp4"), "video_1234.mp4");
    assert_eq!(max_media_bytes("video"), 80 * 1024 * 1024);
    assert_eq!(max_media_bytes("image"), 25 * 1024 * 1024);
    assert_eq!(file_extension("https://cdn/a.webp?x=1", None, "image"), ".webp");
    assert_eq!(file_extension("https://cdn/a", Some("video/mp4"), "video"), ".mp4");
}

#[test]
fn media_downloads_list_images_then_videos_and_first_image_wins() {
    let mut data = empty_product_data();
    assert!(!wants_media_download(true, &data));
    data.image_urls = vec!["https://cdn/i.jpg".to_string()];
    data.video_urls = vec!["https://cdn/v.mp4".to_string()];
    assert!(wants_media_download(true, &data));
    assert!(!wants_media_download(false, &data));
    let items = media_download_items(&data);
    assert_eq!(
        items,
        vec![
            ("image".to_string(), "https://cdn/i.jpg".to_string()),
            ("video".to_string(), "https://cdn/v.mp4".to_string()),
        ]
    );

    let files = vec![
        FetchedProductMediaFile {
            kind: "video".to_string(),
            path: "/m/video_000.mp4".to_string(),
            source_url: "https://cdn/v.mp4".to_string(),
        },
        FetchedProductMediaFile {
            kind: "image".to_string(),
            path: "/m/image_000.jpg".to_string(),
            source_url: "https://cdn/i.jpg".to_string(),
        },
    ];
    attach_media_files(&mut data, files);
    assert_eq!(data.image_url.as_deref(), Some("/m/image_000.jpg"));
    assert_eq!(data.media_files.len(), 2);
}

#[test]
fn finish_reports_missing_title() {
    let resp = finish_product_fetch(empty_product_data());
    assert!(!resp.success);
    assert!(resp.incomplete);
    assert_eq!(
        resp.error.as_deref(),
        Some("Could not find product title on this page (layout may have changed).")
    );
}

#[test]
fn content_type_keeps_the_media_type() {
    assert_eq!(media_content_type(" Image/JPEG ; charset=x"), "image/jpeg");
    assert_eq!(media_content_type("video/mp4"), "video/mp4");
    assert_eq!(media_content_type(""), "");
}

fn answered(status: u16, body: Option<&str>) -> ProductPageLoad {
    ProductPageLoad::Answered {
        status,
        final_url: "https://shop.tiktok.com/view/product/1729?x=1".to_string(),
        body: body.map(str::to_string),
    }
}

#[test]
fn product_fetch_answers_each_way_loading_can_go() {
    let empty = answer_product_fetch("  ", ProductPageLoad::NetworkError, None);
    assert!(!empty.success && !empty.incomplete && empty.data.is_none());
    assert_eq!(empty.error.as_deref(), Some("URL is required"));

    let client = answer_product_fetch("https://x", ProductPageLoad::ClientError("bad proxy".to_string()), None);
    assert!(!client.success && client.incomplete && client.data.is_some());
    assert_eq!(client.error.as_deref(), Some("bad proxy"));

    let network = answer_product_fetch("https://x", ProductPageLoad::NetworkError, None);
    assert_eq!(network.error.as_deref(), Some("Network error while loading the page"));

    let http = answer_product_fetch("https://x", answered(403, Some("<title>A</title>")), None);
    assert!(http.incomplete);
    assert_eq!(http.error.as_deref(), Some("HTTP 403 from TikTok"));

    let unread = answer_product_fetch("https://x", answered(200, None), None);
    assert_eq!(unread.error.as_deref(), Some("Network error while loading the page"));

    let security = answer_product_fetch("https://x", answered(200, Some("<title>Shoe</title> Security Check")), None);
    assert!(!security.success && security.incomplete);
    assert_eq!(security.data.as_ref().and_then(|d| d.name.as_deref()), Some("Shoe"));

    let page = answer_product_fetch(
        "https://x",
        answered(200, Some("<title>Shoe - TikTok Shop</title>")),
        Some(vec![FetchedProductMediaFile {
            kind: "image".to_string(),
            path: "/tmp/image_000.jpg".to_string(),
            source_url: "https://img/1.jpg".to_string(),
        }]),
    );
    assert!(page.success && !page.incomplete && page.error.is_none());
    let data = page.data.unwrap();
    assert_eq!(data.name.as_deref(), Some("Shoe"));
    assert_eq!(data.tiktok_shop_id.as_deref(), Some("1729"));
    assert_eq!(data.image_url.as_deref(), Some("/tmp/image_000.jpg"));
    assert_eq!(data.media_files.len(), 1);

    let nameless = answer_product_fetch("https://x", answered(204, Some("<p>nothing</p>")), None);
    assert!(!nameless.success && nameless.incomplete && nameless.error.is_some());
}
