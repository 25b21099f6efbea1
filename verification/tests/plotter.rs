use loempia::point::{Absolute, Coordinate, Relative};
use loempia::roland_dxy::{
    plot_commands, preamble, program_commands, scale_command, to_hp_gl, write_program, Command,
    AREA_HEIGHT, AREA_WIDTH,
};
use loempia::{Error, Path, Paths, Plot, Stroke, Strokes};

fn line(list: &[(i32, i32)]) -> Path {
    list.iter().map(|&(x, y)| Coordinate::<Absolute>::new(x, y)).collect()
}

fn stroke(start: (i32, i32), steps: &[(i32, i32)], end: (i32, i32)) -> Stroke {
    Stroke {
        start: Coordinate::<Absolute>::new(start.0, start.1),
        path: steps.iter().map(|&(x, y)| Coordinate::<Relative>::new(x, y)).collect(),
        end: Coordinate::<Absolute>::new(end.0, end.1),
    }
}

#[test]
fn plotter_pen_select_serializes_exactly() {
    assert_eq!(Command::SP(1).to_string(), "SP,1;");
    assert_eq!(Command::SP(0).to_string(), "SP,0;");
    assert_eq!(Command::SP(255).to_string(), "SP,255;");
}

#[test]
fn plotter_commands_have_their_text() {
    assert_eq!(Command::IN.to_string(), "IN;");
    assert_eq!(Command::SC(0, 100, -5, 70).to_string(), "SC,0,100,-5,70;");
    assert_eq!(Command::IP(0, 0, 10000, 7000).to_string(), "IP,0,0,10000,7000;");
    assert_eq!(Command::EA(12, 34).to_string(), "EA,12,34;");
    assert_eq!(Command::PA(None).to_string(), "PA;");
    assert_eq!(Command::PA(Some(Coordinate::new(10, -20))).to_string(), "PA,10,-20;");
    assert_eq!(Command::PD(None).to_string(), "PD;");
    assert_eq!(Command::PD(Some(Coordinate::new(1, 2))).to_string(), "PD,1,2;");
    assert_eq!(Command::PR(None).to_string(), "PR;");
    assert_eq!(Command::PR(Some(Coordinate::new(-1, 0))).to_string(), "PR,-1,0;");
    assert_eq!(Command::PU(None).to_string(), "PU;");
    assert_eq!(Command::PU(Some(Coordinate::new(0, 0))).to_string(), "PU,0,0;");
}

#[test]
fn plotter_writes_large_numbers() {
    assert_eq!(
        Command::SC(i32::MIN, i32::MAX, 0, 1).to_string(),
        "SC,-2147483648,2147483647,0,1;"
    );
    assert_eq!(
        Command::EA(usize::MAX, 0).to_string(),
        format!("EA,{},0;", usize::MAX)
    );
}

#[test]
fn stroke_program_raises_moves_lowers_and_draws() {
    let strokes = Strokes(vec![stroke((5, 6), &[(1, 0), (0, -2)], (6, 4))]);
    assert_eq!(
        program_commands(&strokes),
        vec![
            Command::SP(1),
            Command::PU(None),
            Command::PA(Some(Coordinate::new(5, 6))),
            Command::PD(None),
            Command::PR(Some(Coordinate::new(1, 0))),
            Command::PR(Some(Coordinate::new(0, -2))),
            Command::PU(Some(Coordinate::new(0, 0))),
            Command::SP(0),
        ]
    );
}

#[test]
fn hp_gl_of_two_strokes() {
    let strokes = Strokes(vec![stroke((0, 0), &[(10, 0)], (10, 0)), stroke((3, 3), &[(0, 1), (1, 0)], (4, 4))]);
    let text = String::from_utf8(to_hp_gl(&strokes)).unwrap();
    assert_eq!(text, "SP,1;PU;PA,0,0;PD;PR,10,0;PU;PA,3,3;PD;PR,0,1;PR,1,0;PU,0,0;SP,0;");
}

#[test]
fn hp_gl_without_strokes() {
    assert_eq!(to_hp_gl(&Strokes(vec![])), b"SP,1;PU,0,0;SP,0;".to_vec());
    assert_eq!(write_program(&vec![]), "");
}

#[test]
fn scale_keeps_the_binding_axis() {
    // A drawing as wide as it is high: the height binds, the width is stretched.
    assert_eq!(scale_command(700, 700), Command::SC(0, 1000, 0, 700));
    // A very wide drawing: the width binds, the height is stretched.
    assert_eq!(scale_command(20000, 700), Command::SC(0, 20000, 0, 1000));
    // The working area's own aspect: neither ratio is smaller.
    assert_eq!(scale_command(10000, 7000), Command::SC(0, 14285, 0, 7000));
    assert_eq!(scale_command(10, 3), Command::SC(0, 10, 0, 4));
}

#[test]
fn scale_of_flat_drawings() {
    assert_eq!(scale_command(0, 0), Command::SC(0, 0, 0, 0));
    assert_eq!(scale_command(0, 50), Command::SC(0, 0, 0, 50));
    assert_eq!(scale_command(50, 0), Command::SC(0, 50, 0, 0));
}

#[test]
fn scale_saturates() {
    assert_eq!(scale_command(u32::MAX as i64, 1), Command::SC(0, i32::MAX, 0, 1));
    assert_eq!(scale_command(2_000_000_000, 2_000_000_000), Command::SC(0, i32::MAX, 0, 2_000_000_000));
}

#[test]
fn preamble_initialises_then_scales() {
    assert_eq!(AREA_WIDTH, 10_000);
    assert_eq!(AREA_HEIGHT, 7_000);
    assert_eq!(
        preamble(100, 100),
        vec![Command::IN, Command::IP(0, 0, 10000, 7000), Command::SC(0, 142, 0, 100)]
    );
}

#[test]
fn plotter_program_of_a_plot() {
    let paths = Paths::new(vec![line(&[(10, 10), (110, 10), (110, 60)]), line(&[(0, 0), (5, 5)])]).unwrap();
    let commands = plot_commands(&Plot::new(paths)).unwrap();
    assert_eq!(
        write_program(&commands),
        "IN;IP,0,0,10000,7000;SC,0,110,0,85;SP,1;PU;PA,10,10;PD;PR,100,0;PR,0,50;PU;PA,0,0;PD;PR,5,5;PU,0,0;SP,0;"
    );
}

#[test]
fn plotter_refuses_a_short_path() {
    let paths = Paths { paths: vec![line(&[(0, 0), (5, 5)]), line(&[])] };
    match plot_commands(&Plot::new(paths)) {
        Err(Error::ConversionError(message)) => assert!(message.contains("contains 0 `Point`s")),
        other => panic!("unexpected {:?}", other),
    }
}
