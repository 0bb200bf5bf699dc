use spherecast::palette::beachball_grey;
use spherecast::palette::dodecahedron_grey;
use spherecast::palette::icosahedron_grey;
use spherecast::palette::starball_body_grey;
use spherecast::palette::starball_star_grey;
use spherecast::palette::starball_stripe_grey;
use spherecast::palette::ColourScheme;

#[test]
fn beachball_greys_rise_in_even_steps() {
    let greys: Vec<u8> = (0..8).map(beachball_grey).collect();
    assert_eq!(greys, vec![64, 85, 106, 127, 148, 169, 190, 211]);
    assert_eq!(beachball_grey(8), 64);
    assert_eq!(beachball_grey(255), 211);
}

#[test]
fn football_is_black_and_white_as_it_is_meant_to_be_seen() {
    for vertex in 0..12 {
        assert_eq!(dodecahedron_grey(vertex, ColourScheme::Standard), 0);
    }
    for vertex in 0..20 {
        assert_eq!(icosahedron_grey(vertex, ColourScheme::Standard), 255);
    }
}

#[test]
fn football_greys_tell_the_spheres_apart() {
    let dark: Vec<u8> =
        (0..12).map(|v| dodecahedron_grey(v, ColourScheme::Explanatory)).collect();
    assert_eq!(dark, vec![50, 90, 70, 90, 70, 70, 50, 30, 30, 90, 30, 50]);
    let light: Vec<u8> =
        (0..20).map(|v| icosahedron_grey(v, ColourScheme::Explanatory)).collect();
    assert_eq!(
        light,
        vec![
            255, 235, 215, 215, 255, 215, 255, 235, 255, 235, 215, 255, 215, 255, 235, 235, 235,
            215, 235, 255
        ]
    );
}

#[test]
fn starball_greys() {
    assert_eq!(starball_body_grey(ColourScheme::Standard), 210);
    assert_eq!(starball_body_grey(ColourScheme::Explanatory), 255);
    assert_eq!(starball_stripe_grey(ColourScheme::Standard), 50);
    assert_eq!(starball_stripe_grey(ColourScheme::Explanatory), 50);
    let standard: Vec<u8> =
        (0..10).map(|i| starball_star_grey(i, ColourScheme::Standard)).collect();
    assert_eq!(standard, vec![100, 210, 100, 210, 100, 210, 100, 210, 100, 210]);
    let explanatory: Vec<u8> =
        (0..10).map(|i| starball_star_grey(i, ColourScheme::Explanatory)).collect();
    assert_eq!(explanatory, vec![100, 215, 110, 225, 120, 235, 130, 245, 140, 255]);
}
