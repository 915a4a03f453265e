use liquidlauncher::app::marketplace::view::{screenshots, summary, Screenshot};
use liquidlauncher::utils::format::error_line;

#[test]
fn reads_a_description() {
    let extras = "Modules that [LiquidBounce](https://github.com/CCBlueX/LiquidBounce) does not ship. They show up in the ClickGUI under their own **Extras** category.\n\n![Extras in the ClickGUI](https://ccbluex-api-public.s3.de.io.cloud.ovh.net/marketplace/screenshots/781/LzCa1tNKl1LT.png)\n\n## Modules";
    assert_eq!(
        summary(extras).unwrap(),
        "Modules that LiquidBounce does not ship. They show up in the ClickGUI under their own Extras category."
    );
    assert_eq!(
        screenshots(extras).unwrap(),
        [Screenshot {
            url: "https://ccbluex-api-public.s3.de.io.cloud.ovh.net/marketplace/screenshots/781/LzCa1tNKl1LT.png".to_owned(),
            caption: "Extras in the ClickGUI".to_owned(),
        }]
    );
    assert_eq!(
        screenshots(
            r#"<p><img alt="HUD" src="https://example.com/hud.png"/> <img src="http://example.com/a.png"></p>"#
        )
        .unwrap(),
        [
            Screenshot {
                url: "https://example.com/hud.png".to_owned(),
                caption: "HUD".to_owned()
            },
            Screenshot {
                url: "http://example.com/a.png".to_owned(),
                caption: String::new()
            },
        ]
    );

    let heading = "# ScriptAPI\r\n\r\nThe `JavaScript` Script API,\r\npackaged as an *add-on*.";
    assert_eq!(
        summary(heading).unwrap(),
        "The JavaScript Script API, packaged as an add-on."
    );
    assert!(screenshots(heading).unwrap().is_empty());
}

#[test]
fn a_description_of_blocks_only_has_no_summary() {
    assert_eq!(summary("# Title\n\n- a list\n\n```code```").unwrap(), "");
    assert_eq!(summary("").unwrap(), "");
    assert_eq!(summary("  one\t\ttwo  \n\nthree").unwrap(), "one two");
}

#[test]
fn leaves_the_url_out_of_errors() {
    let error = anyhow::Error::msg(
        "error sending request for url (http://127.0.0.1:1/api/v3/marketplace?page=1)",
    )
    .context("unable to browse marketplace");
    assert_eq!(
        error_line(&format!("{error:#}")).unwrap(),
        "unable to browse marketplace: error sending request"
    );
}
