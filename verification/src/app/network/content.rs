//! LiquidBounce's content delivery: files the launcher shows, such as the news.

use vstd::prelude::*;
use crate::utils::text::push_str;

verus! {

/// Where the content delivery is served.
pub open spec fn content_delivery() -> Seq<char> {
    "https://cloud.liquidbounce.net"@
}

/// The launcher's folder of it.
pub open spec fn content_folder() -> Seq<char> {
    "LiquidLauncher"@
}

/// LiquidBounce's content delivery.
pub struct ContentDelivery;

impl ContentDelivery {
    /// Where a file of the launcher's folder is served.
    pub fn file_url(file: &str) -> (r: String)
        ensures
            r@ == content_delivery() + "/"@ + content_folder() + "/"@ + file@,
    {
        let mut r = String::new();
        push_str(&mut r, "https://cloud.liquidbounce.net");
        push_str(&mut r, "/");
        push_str(&mut r, "LiquidLauncher");
        push_str(&mut r, "/");
        push_str(&mut r, file);
        r
    }

    /// Where the news are served.
    pub fn news_url() -> (r: String)
        ensures
            r@ == content_delivery() + "/"@ + content_folder() + "/"@ + "news.json"@,
    {
        Self::file_url("news.json")
    }
}

/// A news article.
pub struct NewsArticle {
    pub title: String,
    pub description: String,
    pub date: String,
    pub url: String,
    pub banner_text: String,
    pub banner_url: String,
}

} // verus!
