use thread_palette::color::{distance_sq, Color};
use thread_palette::color_mapping::{ColorMapping, PaletteError};
use thread_palette::color_threads::ColorThread;

fn rgba(r: u8, g: u8, b: u8, a: u8) -> Color {
    Color { r, g, b, a }
}

#[test]
fn distance_sq_exact_value() {
    let red = rgba(255, 0, 0, 255);
    let q = rgba(250, 10, 5, 255);
    // 5*5 + 10*10 + 5*5 + 0*0
    assert_eq!(distance_sq(&red, &q), 150);
    assert_eq!(distance_sq(&q, &red), 150);
    assert_eq!(distance_sq(&red, &red), 0);
    let black = rgba(0, 0, 0, 0);
    let white = rgba(255, 255, 255, 255);
    assert_eq!(distance_sq(&black, &white), 4 * 255 * 255);
}

#[test]
fn nearest_returns_closest_member() {
    let palette = ColorMapping::new(vec![
        rgba(255, 0, 0, 255),
        rgba(0, 255, 0, 255),
        rgba(0, 0, 255, 255),
    ]);
    assert_eq!(palette.get_color(rgba(250, 10, 5, 255)), rgba(255, 0, 0, 255));
    assert_eq!(palette.get_color(rgba(10, 240, 30, 255)), rgba(0, 255, 0, 255));
    assert_eq!(palette.get_color(rgba(0, 0, 200, 255)), rgba(0, 0, 255, 255));
}

#[test]
fn tie_break_first_inserted_wins() {
    let palette = ColorMapping::new(vec![rgba(0, 0, 0, 255), rgba(2, 2, 2, 255)]);
    // (1,1,1,255) is exactly equidistant from both members.
    assert_eq!(palette.get_color(rgba(1, 1, 1, 255)), rgba(0, 0, 0, 255));
    // Reproducible across repeated calls.
    assert_eq!(palette.get_color(rgba(1, 1, 1, 255)), rgba(0, 0, 0, 255));
    // With the insertion order reversed the other member wins.
    let reversed = ColorMapping::new(vec![rgba(2, 2, 2, 255), rgba(0, 0, 0, 255)]);
    assert_eq!(reversed.get_color(rgba(1, 1, 1, 255)), rgba(2, 2, 2, 255));
}

#[test]
fn nearest_is_idempotent_on_members() {
    let palette = ColorMapping::new(vec![
        rgba(10, 20, 30, 40),
        rgba(200, 100, 50, 255),
        rgba(0, 0, 0, 0),
    ]);
    let member = rgba(200, 100, 50, 255);
    let once = palette.get_color(member);
    assert_eq!(once, member);
    assert_eq!(palette.get_color(once), member);
}

#[test]
fn singleton_palette_answers_every_query() {
    let only = rgba(7, 77, 177, 255);
    let palette = ColorMapping::new(vec![only]);
    assert_eq!(palette.get_color(rgba(0, 0, 0, 0)), only);
    assert_eq!(palette.get_color(rgba(255, 255, 255, 255)), only);
    assert_eq!(palette.get_color(only), only);
}

#[test]
fn push_extends_palette_and_lookups_see_it() {
    let mut palette = ColorMapping::new(vec![rgba(0, 0, 0, 255)]);
    assert_eq!(palette.len(), 1);
    palette.push(rgba(200, 200, 200, 255));
    assert_eq!(palette.len(), 2);
    assert_eq!(palette.get_color(rgba(190, 190, 190, 255)), rgba(200, 200, 200, 255));
    // A later member tied with an earlier one still loses.
    palette.push(rgba(0, 0, 0, 255));
    assert_eq!(palette.len(), 3);
    assert_eq!(palette.get_color(rgba(0, 0, 0, 255)), rgba(0, 0, 0, 255));
}

#[test]
fn color_thread_getters() {
    let t = ColorThread::new(
        String::from("310"),
        String::from("Black"),
        String::from("#000000"),
    );
    assert_eq!(t.get_floss().as_str(), "310");
    assert_eq!(t.get_name().as_str(), "Black");
    assert_eq!(t.get_hex().as_str(), "#000000");
}

#[test]
fn from_threads_builds_palette_in_record_order() {
    let threads = vec![
        ColorThread::new(String::from("666"), String::from("Red"), String::from("#FF0000")),
        ColorThread::new(String::from("699"), String::from("Green"), String::from("#00FF00")),
        ColorThread::new(String::from("796"), String::from("Blue"), String::from("#0000FF")),
    ];
    let palette = ColorMapping::from_threads(threads).unwrap();
    assert_eq!(palette.len(), 3);
    assert_eq!(palette.get_color(rgba(250, 10, 5, 255)), rgba(255, 0, 0, 255));
    assert_eq!(palette.get_color(rgba(10, 240, 30, 255)), rgba(0, 255, 0, 255));
}

#[test]
fn from_threads_rejects_malformed_hex() {
    let threads = vec![
        ColorThread::new(String::from("666"), String::from("Red"), String::from("#FF0000")),
        ColorThread::new(String::from("000"), String::from("Odd"), String::from("#ABC")),
    ];
    let err = match ColorMapping::from_threads(threads) {
        Ok(_) => panic!("a malformed hex color was accepted"),
        Err(e) => e,
    };
    assert_eq!(err, PaletteError::MalformedHexColor);
}
