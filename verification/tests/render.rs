use notation_render::beams::{do_beam, do_single, do_sub_beams, do_sub_sixteen_rightside};
use notation_render::compose::{
    compose, five_lines, output_ackolades, output_beamgroups, output_lines,
    output_main_elements, output_notelines, output_row_nrects,
};
use notation_render::fonts::{glyph_widths, Font, FontGlyph, Resources};
use notation_render::geom::{NPoint, NRect};
use notation_render::model::{
    duration_has_stem, duration_to_beamtype, BeamType, Clef, Diagnostic, DirUD, Duration, NColor,
    NRectExt, NRectType, PartTemplate, RCol, RItem, RItemBeam, RItemBeamData, RMatrix, RRow,
    RenderError, TieFromType, TiePlacement, TieToType,
};
use notation_render::paths::{bbox, scale_items};
use notation_render::prim::{Color, Fill, GraphicItem, PathSegment, Stroke};
use notation_render::resolve::{ncolor2color, nrect2graphic, nrectext2graphic};
use notation_render::style::Style;
use notation_render::svgpath::get_segments;
use notation_render::ties::{bezieer, output_ties};

fn test_resources() -> Resources {
    let mut res = Resources::empty();
    res.music.clef_g = vec![PathSegment::M(1, 2)];
    res.music.head_black = vec![PathSegment::M(3, 4), PathSegment::Z];
    res.music.accidental_sharp = vec![PathSegment::M(7, 8)];
    res.music.accidental_flat = vec![PathSegment::M(9, 10)];
    res.text = Font {
        glyph_height: 705,
        entries: vec![
            FontGlyph { ch: 'a', outline: vec![PathSegment::M(11, 12)] },
            FontGlyph { ch: 'C', outline: vec![PathSegment::M(13, 14)] },
        ],
    };
    res
}

fn beam_data(direction: DirUD, tip_level: i64, durations: Option<Vec<Duration>>) -> RItemBeamData {
    RItemBeamData {
        id: 1,
        direction,
        tip_level,
        top_level: 0,
        bottom_level: 0,
        head_width: 130,
        adjustment_x: None,
        duration: Duration::Sixteenth,
        note_durations: durations,
    }
}

fn plain_event(x: i64, y: i64) -> RItem {
    RItem {
        coord_x: Some(x),
        coord_y: Some(y),
        nrects: Vec::new(),
        note_beam: RItemBeam::NoBeam,
        note2_beam: RItemBeam::NoBeam,
        lines: Vec::new(),
    }
}

fn scenario_matrix() -> RMatrix {
    let style_head_tie_rect = NRect(10, 20, 30, 40);
    let mut clef = plain_event(0, 0);
    clef.nrects = vec![NRectExt::new(NRect(0, 0, 10, 10), NRectType::Clef(Clef::G))];
    let mut n1 = plain_event(200, 0);
    n1.note_beam = RItemBeam::Start(beam_data(DirUD::Up, 0, None));
    let mut n2 = plain_event(300, 0);
    n2.note_beam = RItemBeam::Middle(beam_data(DirUD::Up, 0, None));
    let mut n3 = plain_event(400, 0);
    n3.note_beam = RItemBeam::End(beam_data(
        DirUD::Up,
        0,
        Some(vec![Duration::Sixteenth, Duration::Sixteenth, Duration::Eighth]),
    ));
    let mut from = plain_event(600, 0);
    from.nrects = vec![NRectExt::new(
        style_head_tie_rect,
        NRectType::TieFrom(
            1,
            0,
            TieFromType::Standard,
            Duration::Quarter,
            DirUD::Up,
            DirUD::Up,
            TiePlacement::Mid,
        ),
    )];
    let mut to = plain_event(900, 0);
    to.nrects = vec![NRectExt::new(
        NRect(5, 6, 7, 8),
        NRectType::TieTo(TieToType::ResolveTieFrom(1, 0)),
    )];
    let events = vec![clef, n1, n2, n3, from, to];
    let row = RRow {
        y: 0,
        items: vec![Some(0), Some(1), Some(2), Some(3), Some(4), Some(5)],
        nrects: Vec::new(),
    };
    let cols = (0..6)
        .map(|i| RCol { x: (i as i64) * 100, duration: 1, items: vec![Some(i)] })
        .collect::<Vec<_>>();
    RMatrix {
        events,
        rows: vec![row],
        cols,
        bartemplate: Some(vec![PartTemplate::Music]),
        width: 1000,
        height: 200,
    }
}

#[test]
fn lib_example() {
    let res = test_resources();
    let path = res.text.get_path('a');
    assert_eq!(path, vec![PathSegment::M(11, 12)]);
}

#[test]
fn svgpathutils_example() {
    let svg_path = "M1316.42,-22.815C1463.73,-22.815 1583.19,104.929 1583.19,262.105C1583.19,419.282 1463.73,547.026 1316.42,547.026C1169.11,547.026 1049.64,419.282 1049.64,262.105C1049.64,104.929 1169.11,-22.815 1316.42,-22.815ZM1316.42,22.815C1192.57,22.815 1091.9,129.962 1091.9,262.105C1091.9,394.248 1192.57,501.395 1316.42,501.395C1440.26,501.395 1540.93,394.248 1540.93,262.105C1540.93,129.962 1440.26,22.815 1316.42,22.815Z";
    let segments: Vec<String> = get_segments(svg_path.to_string());
    assert!(segments.len() > 0);
}

#[test]
fn segments_split_on_commands() {
    let segs = get_segments("M1,2L3,4Z".to_string());
    assert_eq!(segs, vec!["".to_string(), "M1,2".to_string(), "L3,4".to_string(), "Z".to_string()]);
    assert_eq!(get_segments(String::new()), Vec::<String>::new());
}

#[test]
fn bezier_endpoints_and_count() {
    let pts = bezieer(NPoint(0, 0), NPoint(10, 0), NPoint(20, 0), NPoint(30, 0), 3);
    assert_eq!(pts.len(), 4);
    assert_eq!(pts[0], NPoint(0, 0));
    assert_eq!(pts[3], NPoint(30, 0));
    // a straight, evenly spaced control polygon samples evenly
    assert_eq!(pts[1], NPoint(10, 0));
    assert_eq!(pts[2], NPoint(20, 0));
}

#[test]
fn single_stem_geometry() {
    let style = Style::standard();
    let d = beam_data(DirUD::Up, 0, None);
    let items = do_single(&d, NPoint(100, 0), &style);
    // stem seat: head width less half the stem width; tip: seven
    // half-spaces up; root: bottom level less the overlap correction
    assert_eq!(items, vec![GraphicItem::Line(
        227,
        -350,
        227,
        -2,
        Stroke::Strokestyle(6, Color::Black),
    )]);
}

#[test]
fn beam_slope_midpoint() {
    let style = Style::standard();
    let mut diags: Vec<Diagnostic> = Vec::new();
    let items = vec![
        (beam_data(DirUD::Down, 0, None), NPoint(0, 0)),
        (beam_data(DirUD::Down, 2, None), NPoint(5, 0)),
        (
            beam_data(
                DirUD::Down,
                4,
                Some(vec![Duration::Sixteenth, Duration::Sixteenth, Duration::Sixteenth]),
            ),
            NPoint(10, 0),
        ),
    ];
    let out = do_beam(&items, &style, &mut diags);
    assert!(diags.is_empty());
    // stems come first, last, then the middle; direction down seats all
    // stems at half the stem width right of the anchor
    let first_tip = 0 + 0 * 50 + 350;
    let last_tip = 0 + 4 * 50 + 350;
    let mid_tip = first_tip + (last_tip - first_tip) * 5 / 10;
    match &out[2] {
        GraphicItem::Line(x, _y, x2, y2, _) => {
            assert_eq!(*x, 8);
            assert_eq!(*x2, 8);
            assert_eq!(*y2, mid_tip);
        },
        other => panic!("expected the middle stem, found {:?}", other),
    }
}

fn sub_beam_counts(durations: Vec<Duration>, n_tips: usize) -> (usize, usize) {
    let style = Style::standard();
    let mut diags: Vec<Diagnostic> = Vec::new();
    let tips = (0..n_tips).map(|i| NPoint((i as i64) * 200, -350)).collect::<Vec<_>>();
    let out = do_sub_beams(&tips, DirUD::Up, &durations, &style, &mut diags);
    (out.len(), diags.len())
}

#[test]
fn sub_beam_pattern_coverage() {
    let s16 = Duration::Sixteenth;
    let e8 = Duration::Eighth;
    // full-span secondary: one extra quadrilateral
    assert_eq!(sub_beam_counts(vec![s16, s16], 2), (2, 0));
    assert_eq!(sub_beam_counts(vec![s16, s16, s16], 3), (2, 0));
    assert_eq!(sub_beam_counts(vec![s16, s16, s16, s16], 4), (2, 0));
    // one-sided secondaries: a guide line and a quadrilateral
    assert_eq!(sub_beam_counts(vec![e8, s16], 2), (3, 0));
    assert_eq!(sub_beam_counts(vec![e8, s16, e8], 3), (3, 0));
    assert_eq!(sub_beam_counts(vec![s16, e8], 2), (3, 0));
    assert_eq!(sub_beam_counts(vec![s16, s16, e8], 3), (3, 0));
    assert_eq!(sub_beam_counts(vec![s16, s16, e8, e8], 4), (3, 0));
    assert_eq!(sub_beam_counts(vec![e8, s16, s16], 3), (3, 0));
    assert_eq!(sub_beam_counts(vec![e8, s16, s16, e8], 4), (3, 0));
    // split: two secondaries, one per side of the middle stem
    assert_eq!(sub_beam_counts(vec![s16, e8, s16], 3), (5, 0));
    // an unlisted tuple draws only the primary beam and notes a diagnostic
    assert_eq!(sub_beam_counts(vec![s16, s16, s16, s16, s16], 5), (1, 1));
}

#[test]
fn sub_beam_rightside_shortens_by_head_width() {
    let style = Style::standard();
    let items = do_sub_sixteen_rightside(NPoint(0, 0), NPoint(400, 0), DirUD::Up, &style);
    assert_eq!(items.len(), 2);
    match &items[0] {
        GraphicItem::Line(x, _, x2, _, _) => {
            // anchored at the right stem, set back one notehead width
            assert_eq!(*x, 400 - 130 - 3);
            assert_eq!(*x2, 400 + 3);
        },
        other => panic!("expected the guide line, found {:?}", other),
    }
}

#[test]
fn tie_polygon_closure() {
    let style = Style::standard();
    let res = test_resources();
    let _ = &res;
    let matrix = scenario_matrix();
    let mut diags: Vec<Diagnostic> = Vec::new();
    let out = output_ties(&matrix, &style, &mut diags).unwrap();
    assert_eq!(out.len(), 1);
    match &out[0] {
        GraphicItem::Path(ops, _, _, _) => {
            // both halves sample sixteen points; the outline closes on the
            // from-anchor, shifted by the mid placement and the up/mid nudges
            assert_eq!(ops.len(), 2 * 15 + 2);
            let from_x = 600 + 10 + 60;
            let from_y = 0 + 20 + 50;
            assert_eq!(ops[0], PathSegment::M(from_x, from_y));
            assert_eq!(ops[30], PathSegment::L(from_x, from_y));
            assert_eq!(ops[31], PathSegment::Z);
        },
        other => panic!("expected the tie polygon, found {:?}", other),
    }
}

#[test]
fn tie_lookup_resolves_inserted_key() {
    let style = Style::standard();
    let matrix = scenario_matrix();
    let mut diags: Vec<Diagnostic> = Vec::new();
    assert!(output_ties(&matrix, &style, &mut diags).is_ok());
}

#[test]
fn tie_lookup_missing_key_is_fatal() {
    let style = Style::standard();
    let mut matrix = scenario_matrix();
    // drop the matching tie-from marker
    matrix.events[4].nrects.clear();
    let mut diags: Vec<Diagnostic> = Vec::new();
    assert_eq!(
        output_ties(&matrix, &style, &mut diags),
        Err(RenderError::UnresolvedTie(1, 0)),
    );
}

#[test]
fn tie_let_ring_to_is_unsupported() {
    let style = Style::standard();
    let mut matrix = scenario_matrix();
    matrix.events[5].nrects = vec![NRectExt::new(
        NRect(0, 0, 1, 1),
        NRectType::TieTo(TieToType::LetRing),
    )];
    let mut diags: Vec<Diagnostic> = Vec::new();
    assert_eq!(
        output_ties(&matrix, &style, &mut diags),
        Err(RenderError::LetRingTieUnsupported),
    );
}

#[test]
fn missing_coordinate_is_fatal() {
    let style = Style::standard();
    let res = test_resources();
    let mut matrix = scenario_matrix();
    matrix.events[1].coord_x = None;
    assert_eq!(
        output_main_elements(&matrix, &style, &res, false),
        Err(RenderError::MissingCoordinate),
    );
    let mut diags: Vec<Diagnostic> = Vec::new();
    assert_eq!(
        output_beamgroups(&matrix, &style, &mut diags),
        Err(RenderError::MissingCoordinate),
    );
}

#[test]
fn end_to_end_scenario() {
    let style = Style::standard();
    let res = test_resources();
    let matrix = scenario_matrix();
    let mut diags: Vec<Diagnostic> = Vec::new();
    let out = compose(&matrix, &style, &res, false, &mut diags).unwrap();
    // five staff lines, one clef glyph, three stems, one primary beam,
    // one secondary beam (guide line and quadrilateral), one tie polygon
    assert_eq!(out.len(), 13);
    for i in 0..5 {
        match &out[i] {
            GraphicItem::Line(0, _, 1000, _, _) => {},
            other => panic!("expected a staff line, found {:?}", other),
        }
    }
    match &out[5] {
        GraphicItem::Path(ops, _, _, _) => {
            // the clef outline, flipped and anchored below the staff center
            assert_eq!(ops.as_slice(), &[PathSegment::M(1, 460 - 2)]);
        },
        other => panic!("expected the clef glyph, found {:?}", other),
    }
    let mut stems = 0;
    let mut quads = 0;
    for item in &out[6..12] {
        match item {
            GraphicItem::Line(..) => stems += 1,
            GraphicItem::Path(..) => quads += 1,
            other => panic!("unexpected beam item {:?}", other),
        }
    }
    // three stems and one guide line, one primary and one secondary beam
    assert_eq!(stems, 4);
    assert_eq!(quads, 2);
    match &out[12] {
        GraphicItem::Path(ops, _, _, _) => assert_eq!(ops.len(), 32),
        other => panic!("expected the tie polygon, found {:?}", other),
    }
    assert!(diags.is_empty());
}

fn is_subsequence_of(a: &[GraphicItem], b: &[GraphicItem]) -> bool {
    let mut j = 0;
    for item in a {
        loop {
            if j >= b.len() {
                return false;
            }
            if &b[j] == item {
                j += 1;
                break;
            }
            j += 1;
        }
    }
    true
}

#[test]
fn paint_order_idempotence() {
    let style = Style::standard();
    let res = test_resources();
    let matrix = scenario_matrix();
    let mut d1: Vec<Diagnostic> = Vec::new();
    let mut d2: Vec<Diagnostic> = Vec::new();
    let off = compose(&matrix, &style, &res, false, &mut d1).unwrap();
    let on = compose(&matrix, &style, &res, true, &mut d2).unwrap();
    assert!(is_subsequence_of(&off, &on));
    // the flag adds the frame and marker rectangles, so the lists differ
    assert!(off.len() < on.len());
}

#[test]
fn determinism() {
    let style = Style::standard();
    let res = test_resources();
    let matrix = scenario_matrix();
    let mut d1: Vec<Diagnostic> = Vec::new();
    let mut d2: Vec<Diagnostic> = Vec::new();
    let a = compose(&matrix, &style, &res, true, &mut d1).unwrap();
    let b = compose(&matrix, &style, &res, true, &mut d2).unwrap();
    assert_eq!(a, b);
    assert_eq!(d1, d2);
}

#[test]
fn resolver_is_total() {
    let style = Style::standard();
    let res = test_resources();
    let r = NRect(0, 0, 10, 10);
    let kinds = vec![
        NRectType::Head(notation_render::model::HeadShape::BlackHead),
        NRectType::Dotted(1),
        NRectType::Pause(notation_render::model::PauseShape::Quarter),
        NRectType::Flag(BeamType::B8, DirUD::Up),
        NRectType::Flag(BeamType::B32, DirUD::Down),
        NRectType::TplSymbol('3'),
        NRectType::Clef(Clef::F),
        NRectType::KeySignature(notation_render::model::Key::Sharps(6)),
        NRectType::KeySignature(notation_render::model::Key::Flats(3)),
        NRectType::KeySignature(notation_render::model::Key::Naturals(2)),
        NRectType::KeySignature(notation_render::model::Key::Open),
        NRectType::TimeSignature(notation_render::model::Time::Common),
        NRectType::TimeSignature(notation_render::model::Time::Standard(
            notation_render::model::TimeNominator::Three,
            notation_render::model::TimeDenominator::Quarters,
        )),
        NRectType::Barline(notation_render::model::BarlineType::Single),
        NRectType::Barline(notation_render::model::BarlineType::Double),
        NRectType::Barline(notation_render::model::BarlineType::Final),
        NRectType::Barline(notation_render::model::BarlineType::FraseTick),
        NRectType::Accidental(notation_render::model::Accidental::Flat),
        NRectType::Wip,
        NRectType::ColorRect(NColor::Lime),
        NRectType::StrokeRect(NColor::Gray),
        NRectType::TieFrom(
            1,
            0,
            TieFromType::LetRing,
            Duration::Quarter,
            DirUD::Up,
            DirUD::Up,
            TiePlacement::Top,
        ),
        NRectType::TieTo(TieToType::LetRing),
        NRectType::HelpLine,
        NRectType::LyricChar('a'),
        NRectType::Dev(true, NColor::Purple),
        NRectType::Dummy,
        NRectType::Spacer,
        NRectType::LineFrom(0, 1, notation_render::model::HeadLineType::Plain),
        NRectType::LineTo(0, 1, notation_render::model::HeadLineType::Halfstep),
        NRectType::ChordSymbol(
            notation_render::model::ChordRoot::CSharp,
            notation_render::model::ChordFlavour::Minor,
            notation_render::model::ChordColor::MajSeven,
            notation_render::model::ChordRoot::GFlat,
        ),
        NRectType::FunctionSymbol(
            notation_render::model::FunctionType::DD,
            notation_render::model::FunctionColor::Fc64,
            notation_render::model::FunctionBass::Fb3,
            true,
            true,
        ),
    ];
    for kind in kinds {
        let shape = NRectExt::new(r, kind);
        let _ = nrectext2graphic(&shape, 0, 0, &style, &res, false);
        let _ = nrectext2graphic(&shape, 0, 0, &style, &res, true);
    }
}

#[test]
fn diagnostic_rectangles_follow_the_flag() {
    let style = Style::standard();
    let res = test_resources();
    let shape = NRectExt::new(NRect(1, 2, 3, 4), NRectType::Dev(false, NColor::Orange));
    assert!(nrectext2graphic(&shape, 0, 0, &style, &res, false).is_empty());
    assert_eq!(
        nrectext2graphic(&shape, 0, 0, &style, &res, true),
        vec![GraphicItem::Rect(
            1,
            2,
            3,
            4,
            Stroke::Strokestyle(1, Color::Orange),
            Fill::NoFill,
        )],
    );
}

#[test]
fn color_rect_resolution() {
    let style = Style::standard();
    let res = test_resources();
    let shape = NRectExt::new(NRect(1, 2, 3, 4), NRectType::ColorRect(NColor::Tomato));
    assert_eq!(
        nrectext2graphic(&shape, 10, 20, &style, &res, false),
        vec![GraphicItem::Rect(
            11,
            22,
            3,
            4,
            Stroke::NoStroke,
            Fill::Fillstyle(Color::Tomato),
        )],
    );
}

#[test]
fn staff_and_brace_output() {
    let style = Style::standard();
    let matrix = scenario_matrix();
    // one music row: five staff lines, and no brace with fewer than two
    assert_eq!(output_notelines(&matrix, &style).len(), 5);
    assert!(output_ackolades(&matrix, &style).is_empty());
    let mut two = scenario_matrix();
    two.rows.push(RRow { y: 500, items: Vec::new(), nrects: Vec::new() });
    two.bartemplate = Some(vec![PartTemplate::Music, PartTemplate::Music]);
    for col in two.cols.iter_mut() {
        col.items.push(None);
    }
    assert_eq!(output_notelines(&two, &style).len(), 10);
    assert_eq!(output_ackolades(&two, &style).len(), 4);
    assert_eq!(five_lines(700, &style).len(), 5);
}

#[test]
fn connector_lines_output() {
    let style = Style::standard();
    let res = test_resources();
    let mut matrix = scenario_matrix();
    matrix.events[1].lines = vec![(0, 2, notation_render::model::HeadLineType::Plain)];
    let out = output_lines(&matrix, &style, &res).unwrap();
    // the line spec sits on the right event of the clef/first-note pair
    assert_eq!(out, vec![GraphicItem::Line(
        0 + 180,
        0 + 0 + 4,
        200 - 40,
        0 + 100 + 4,
        Stroke::Strokestyle(5, Color::Black),
    )]);
}

#[test]
fn row_decorations_output() {
    let style = Style::standard();
    let res = test_resources();
    let mut matrix = scenario_matrix();
    matrix.rows[0].nrects = vec![NRectExt::new(NRect(1, 1, 2, 2), NRectType::HelpLine)];
    let out = output_row_nrects(&matrix, &style, &res, false);
    assert_eq!(out, vec![GraphicItem::Rect(
        1,
        1,
        2,
        2,
        Stroke::NoStroke,
        Fill::Fillstyle(Color::Black),
    )]);
}

#[test]
fn unhandled_pattern_notes_diagnostic_in_group() {
    let style = Style::standard();
    let mut diags: Vec<Diagnostic> = Vec::new();
    let items = vec![
        (beam_data(DirUD::Up, 0, None), NPoint(0, 0)),
        (
            beam_data(DirUD::Up, 0, Some(vec![Duration::ThirtySecond, Duration::ThirtySecond])),
            NPoint(100, 0),
        ),
    ];
    let out = do_beam(&items, &style, &mut diags);
    // two stems and the primary beam, no secondary for an unlisted tuple
    assert_eq!(out.len(), 3);
    assert_eq!(diags, vec![Diagnostic::UnhandledSubBeamPattern]);
}

#[test]
fn lone_group_member_notes_diagnostic() {
    let style = Style::standard();
    let mut diags: Vec<Diagnostic> = Vec::new();
    let items = vec![(beam_data(DirUD::Up, 0, Some(Vec::new())), NPoint(0, 0))];
    let out = do_beam(&items, &style, &mut diags);
    assert!(out.is_empty());
    assert_eq!(diags, vec![Diagnostic::SingleEventBeamGroup]);
}

#[test]
fn duration_tables() {
    assert!(!duration_has_stem(&Duration::Whole));
    assert!(duration_has_stem(&Duration::Quarter));
    assert_eq!(duration_to_beamtype(&Duration::Eighth), BeamType::B8);
    assert_eq!(duration_to_beamtype(&Duration::Sixteenth), BeamType::B16);
    assert_eq!(duration_to_beamtype(&Duration::ThirtySecond), BeamType::B32);
}

#[test]
fn glyph_width_table() {
    assert_eq!(glyph_widths('a'), 398);
    assert_eq!(glyph_widths('b'), 480);
    assert_eq!(glyph_widths('c'), 372);
    assert_eq!(glyph_widths('A'), 697);
    assert_eq!(glyph_widths('B'), 547);
    assert_eq!(glyph_widths('C'), 655);
    assert_eq!(glyph_widths('q'), 100);
}

#[test]
fn color_mapping() {
    assert_eq!(ncolor2color(NColor::Dodgerblue), Color::Dodgerblue);
    assert_eq!(ncolor2color(NColor::LightGray), Color::LightGray);
}

#[test]
fn rect_primitive_wrapper() {
    let item = nrect2graphic(
        NRect(1, 2, 3, 4),
        Stroke::Strokestyle(2, Color::Red),
        Fill::NoFill,
    );
    assert_eq!(
        item,
        GraphicItem::Rect(1, 2, 3, 4, Stroke::Strokestyle(2, Color::Red), Fill::NoFill),
    );
}

#[test]
fn scaling_and_bounds() {
    let items = vec![
        GraphicItem::Line(0, 0, 100, 200, Stroke::Strokestyle(10, Color::Black)),
        GraphicItem::Rect(-50, -60, 20, 30, Stroke::NoStroke, Fill::NoFill),
    ];
    let scaled = scale_items(&items, 500, -500, 500);
    assert_eq!(
        scaled[0],
        GraphicItem::Line(0, 0, 50, -100, Stroke::Strokestyle(5, Color::Black)),
    );
    assert_eq!(
        scaled[1],
        GraphicItem::Rect(-25, 30, 10, -15, Stroke::NoStroke, Fill::NoFill),
    );
    assert_eq!(bbox(&items), Some((-50, -60, 100, 200)));
    assert_eq!(bbox(&Vec::new()), None);
}

#[test]
fn empty_glyph_store_is_workable() {
    let style = Style::standard();
    let res = Resources::empty();
    let shape = NRectExt::new(NRect(0, 0, 10, 10), NRectType::Clef(Clef::C));
    let out = nrectext2graphic(&shape, 0, 0, &style, &res, false);
    assert_eq!(out.len(), 1);
    match &out[0] {
        GraphicItem::Path(ops, _, _, _) => assert!(ops.is_empty()),
        other => panic!("expected an empty glyph path, found {:?}", other),
    }
}

#[test]
fn let_ring_from_marker_defers_with_diagnostic() {
    let style = Style::standard();
    let mut matrix = scenario_matrix();
    matrix.events[4].nrects = vec![NRectExt::new(
        NRect(0, 0, 1, 1),
        NRectType::TieFrom(
            1,
            0,
            TieFromType::LetRing,
            Duration::Quarter,
            DirUD::Up,
            DirUD::Up,
            TiePlacement::Top,
        ),
    )];
    matrix.events[5].nrects.clear();
    let mut diags: Vec<Diagnostic> = Vec::new();
    let out = output_ties(&matrix, &style, &mut diags).unwrap();
    assert!(out.is_empty());
    assert_eq!(diags, vec![Diagnostic::TieLetRing(4)]);
}

#[test]
fn key_signature_accumulates_sharps() {
    let style = Style::standard();
    let res = test_resources();
    let shape = NRectExt::new(
        NRect(0, 0, 10, 10),
        NRectType::KeySignature(notation_render::model::Key::Sharps(3)),
    );
    let out = nrectext2graphic(&shape, 0, 0, &style, &res, false);
    assert_eq!(out.len(), 1);
    match &out[0] {
        GraphicItem::Path(ops, _, _, _) => {
            // one sharp outline per accidental, each at its enumerated
            // zig-zag position, the whole block anchored below the staff
            assert_eq!(ops.as_slice(), &[
                PathSegment::M(7, -8 - 200 + 350),
                PathSegment::M(7 + 100, -8 - 50 + 350),
                PathSegment::M(7 + 200, -8 - 250 + 350),
            ]);
        },
        other => panic!("expected the key signature path, found {:?}", other),
    }
}

#[test]
fn time_signature_places_both_figures() {
    let style = Style::standard();
    let mut res = test_resources();
    res.music.number_four = vec![PathSegment::M(20, 30)];
    res.music.number_three = vec![PathSegment::M(40, 50)];
    let shape = NRectExt::new(
        NRect(0, 0, 10, 10),
        NRectType::TimeSignature(notation_render::model::Time::Standard(
            notation_render::model::TimeNominator::Three,
            notation_render::model::TimeDenominator::Quarters,
        )),
    );
    let out = nrectext2graphic(&shape, 0, 0, &style, &res, false);
    assert_eq!(out.len(), 1);
    match &out[0] {
        GraphicItem::Path(ops, _, _, _) => {
            // denominator below, nudged right for a three on top; the
            // numerator above with its own nudge
            assert_eq!(ops.as_slice(), &[
                PathSegment::M(20 + 5, -30 + 100 + 300),
                PathSegment::M(40 + 6, -50 - 100 + 300),
            ]);
        },
        other => panic!("expected the time signature path, found {:?}", other),
    }
}

#[test]
fn tie_bottom_placement_shifts_further() {
    let style = Style::standard();
    let mut matrix = scenario_matrix();
    matrix.events[4].nrects = vec![NRectExt::new(
        NRect(10, 20, 30, 40),
        NRectType::TieFrom(
            1,
            0,
            TieFromType::Standard,
            Duration::Quarter,
            DirUD::Up,
            DirUD::Up,
            TiePlacement::Bottom,
        ),
    )];
    let mut diags: Vec<Diagnostic> = Vec::new();
    let out = output_ties(&matrix, &style, &mut diags).unwrap();
    match &out[0] {
        GraphicItem::Path(ops, _, _, _) => {
            // bottom placement shifts the anchors further down than mid,
            // and the up/bottom nudge pulls the from-anchor left
            let from_x = 600 + 10 - 30;
            let from_y = 0 + 20 + 100;
            assert_eq!(ops[0], PathSegment::M(from_x, from_y));
        },
        other => panic!("expected the tie polygon, found {:?}", other),
    }
}
