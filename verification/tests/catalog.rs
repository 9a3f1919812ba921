use media_composer::catalog::{list_encoders, parse_encoder_listing, Capabilities, Encoder};
use media_composer::error::ErrorKind;

const NONE: Capabilities = Capabilities {
    frame_threads: false,
    slice_threads: false,
    experimental: false,
    draw_horiz_band: false,
    direct_rendering: false,
};

fn encoder(id: &str, label: &str, capabilities: Capabilities) -> Encoder {
    Encoder { id: id.to_string(), label: label.to_string(), capabilities }
}

const LISTING: &str = "Encoders:
 V..... = Video
 A..... = Audio
 S..... = Subtitle
 .F.... = Frame-level multithreading
 ..S... = Slice-level multithreading
 ...X.. = Codec is experimental
 ....B. = Supports draw_horiz_band
 .....D = Supports direct rendering method 1
 ------
 V....D a64multi             Multicolor charset for Commodore 64 (codec a64_multi)
 VFS..D ffv1                 FFmpeg video codec #1
 A....D aac                  AAC (Advanced Audio Coding)
 V..X.. libexp               An experimental one
 S..... ass                  ASS (Advanced SubStation Alpha) subtitle
 V...B. banded Bands
 V..... bare
";

#[test]
fn the_video_encoders_of_a_listing_are_read_in_order() {
    let list = parse_encoder_listing(LISTING);
    assert_eq!(
        list,
        vec![
            encoder(
                "a64multi",
                "Multicolor charset for Commodore 64 (codec a64_multi)",
                Capabilities { direct_rendering: true, ..NONE }
            ),
            encoder(
                "ffv1",
                "FFmpeg video codec #1",
                Capabilities {
                    frame_threads: true,
                    slice_threads: true,
                    direct_rendering: true,
                    ..NONE
                }
            ),
            encoder("libexp", "An experimental one", Capabilities { experimental: true, ..NONE }),
            encoder("banded", "Bands", Capabilities { draw_horiz_band: true, ..NONE }),
            encoder("bare", "", NONE),
        ]
    );
}

#[test]
fn reading_a_listing_twice_gives_the_same_catalog() {
    assert_eq!(parse_encoder_listing(LISTING), parse_encoder_listing(LISTING));
}

#[test]
fn the_preamble_lists_nothing() {
    let text = "Encoders:\n V..... = Video\n V....D early               Before the rule\n";
    assert_eq!(parse_encoder_listing(text), Vec::<Encoder>::new());
    assert_eq!(parse_encoder_listing(""), Vec::<Encoder>::new());
    assert_eq!(parse_encoder_listing("\n\n\n"), Vec::<Encoder>::new());
    assert_eq!(parse_encoder_listing(" ------"), Vec::<Encoder>::new());
    assert_eq!(parse_encoder_listing(" ------\n"), Vec::<Encoder>::new());
}

#[test]
fn a_last_line_without_a_line_feed_is_read() {
    let list = parse_encoder_listing(" ------\n V....D last Last one");
    assert_eq!(list, vec![encoder("last", "Last one", Capabilities { direct_rendering: true, ..NONE })]);
}

#[test]
fn carriage_returns_are_not_part_of_a_line() {
    let list = parse_encoder_listing("Encoders:\r\n ------\r\n V....D x264   H.264\r\n V..... bare\r\n");
    assert_eq!(
        list,
        vec![
            encoder("x264", "H.264", Capabilities { direct_rendering: true, ..NONE }),
            encoder("bare", "", NONE),
        ]
    );
}

#[test]
fn lines_of_another_shape_are_passed_over() {
    let text = " ------
V....D noblank              No blank in front
 V....Dtight                No blank before the name
 V....D  late               Two blanks before the name
 v....D lower               A small v
 V....
 ------
 V....D good                Good
  V....D shifted            One blank too many
";
    let list = parse_encoder_listing(text);
    assert_eq!(list, vec![encoder("good", "Good", Capabilities { direct_rendering: true, ..NONE })]);
}

#[test]
fn the_rule_must_stand_alone() {
    let text = " ------ \n V....D a A\n";
    assert_eq!(parse_encoder_listing(text), Vec::<Encoder>::new());
    let text = "------\n V....D a A\n";
    assert_eq!(parse_encoder_listing(text), Vec::<Encoder>::new());
}

#[test]
fn marks_count_only_in_their_own_place() {
    let list = parse_encoder_listing(" ------\n VDBFSX odd Marks in the wrong places\n");
    assert_eq!(list, vec![encoder("odd", "Marks in the wrong places", NONE)]);
}

#[test]
fn descriptions_keep_what_is_not_ascii() {
    let list = parse_encoder_listing(" ------\n V....D caf\u{e9}  Caf\u{e9} \u{2014} codec\n V..... z  end\n");
    assert_eq!(
        list,
        vec![
            encoder("caf\u{e9}", "Caf\u{e9} \u{2014} codec", Capabilities { direct_rendering: true, ..NONE }),
            encoder("z", "end", NONE),
        ]
    );
}

#[test]
fn a_probe_that_answered_gives_the_catalog() {
    let list = list_encoders(Ok(" ------\n V..... raw  Raw video\n".to_string())).unwrap();
    assert_eq!(list, vec![encoder("raw", "Raw video", NONE)]);
    assert_eq!(list_encoders(Ok(String::new())).unwrap(), Vec::<Encoder>::new());
}

#[test]
fn a_failed_probe_is_an_environment_error() {
    let err = list_encoders(Err("ffmpeg: command not found".to_string())).unwrap_err();
    assert_eq!(err.kind, ErrorKind::EnvironmentError);
    assert_eq!(err.message, "ffmpeg: command not found");
}
