use vstd::prelude::*;

verus! {

/// Every layout constant of the engraving rules, collected in one immutable
/// value that is passed explicitly into every component.
///
/// Distances are in render units.  The staff interline distance `SPACE` is
/// `20 * space_step`, so that every enumerated fraction of `SPACE` used by
/// the rules (quarters, tenths, twentieths) is an exact integer.  Font
/// scale factors are in thousandths.
#[derive(Clone, Copy, Debug, PartialEq, Eq, Structural)]
pub struct Style {
    /// One twentieth of the staff interline distance.
    pub space_step: i64,
    /// Stroke width of staff lines and the system brace stem.
    pub notelines_width: i64,
    /// Stroke width of a note stem.
    pub stem_width: i64,
    /// Half the stem stroke width.
    pub stem_width_half: i64,
    /// Stem length, counted in half-`SPACE` steps.
    pub stem_length_halves: i64,
    /// Small head/stem overlap correction at the stem root.
    pub stem_head_correction: i64,
    /// Thickness of a beam quadrilateral.
    pub beam_height: i64,
    /// Offset between beam levels along the beam perpendicular.
    pub beam_sub_distance: i64,
    /// Width of a filled notehead.
    pub head_width_black: i64,
    /// Downward shift of tie anchors for `mid` placement.
    pub tie_space: i64,
    /// The larger downward shift of tie anchors for `bottom` placement.
    pub tie_space_bottom: i64,
    /// Horizontal nudge applied at a tie's from-anchor.
    pub tie_from_width: i64,
    /// Horizontal nudge applied at a tie's to-anchor.
    pub tie_to_width: i64,
    /// Small symmetric horizontal tie adjustment.
    pub tie_adjust_x: i64,
    /// Height of the tie bow.
    pub tie_height: i64,
    /// Thickness of the tie polygon.
    pub tie_thickness: i64,
    /// Stroke width of diagnostic lines.
    pub dev_line_thickness: i64,
    /// Width of a single barline.
    pub barline_width_single: i64,
    /// Distance between the two strokes of a double barline.
    pub barline_double_space: i64,
    /// Leftward shift of flag glyphs onto the stem.
    pub flag_x_adjust: i64,
    /// Horizontal advance per sharp in a key signature.
    pub accidental_width_sharp: i64,
    /// Horizontal advance per flat in a key signature.
    pub accidental_width_flat: i64,
    /// Margin around a chord symbol.
    pub chord_margin: i64,
    /// Scale of lyric glyphs, in thousandths.
    pub lyrics_scale_milli: i64,
    /// Scale of chord-symbol letter glyphs, in thousandths.
    pub chord_scale_milli: i64,
    /// Scale of chord-symbol accidentals, in thousandths.
    pub chord_accidental_scale_milli: i64,
    /// Scale of chord-symbol figures, in thousandths.
    pub chord_figure_scale_milli: i64,
    /// Scale of function-symbol letters, in thousandths.
    pub function_scale_milli: i64,
    /// Scale of function-symbol figures, in thousandths.
    pub function_figure_scale_milli: i64,
    /// Scale of the template-symbol circle, in thousandths.
    pub tpl_circle_scale_milli: i64,
    /// Scale of the template-symbol figure, in thousandths.
    pub tpl_figure_scale_milli: i64,
    /// Scale of the halfstep connector label, in thousandths.
    pub halfstep_label_scale_milli: i64,
    /// Scale of the wholestep connector label, in thousandths.
    pub wholestep_label_scale_milli: i64,
    /// How many line segments each half of a tie curve is sampled into.
    pub tie_segments: u8,
}

/// The mathematical value of a style.
pub struct StyleView {
    pub space_step: int,
    pub notelines_width: int,
    pub stem_width: int,
    pub stem_width_half: int,
    pub stem_length_halves: int,
    pub stem_head_correction: int,
    pub beam_height: int,
    pub beam_sub_distance: int,
    pub head_width_black: int,
    pub tie_space: int,
    pub tie_space_bottom: int,
    pub tie_from_width: int,
    pub tie_to_width: int,
    pub tie_adjust_x: int,
    pub tie_height: int,
    pub tie_thickness: int,
    pub dev_line_thickness: int,
    pub barline_width_single: int,
    pub barline_double_space: int,
    pub flag_x_adjust: int,
    pub accidental_width_sharp: int,
    pub accidental_width_flat: int,
    pub chord_margin: int,
    pub lyrics_scale_milli: int,
    pub chord_scale_milli: int,
    pub chord_accidental_scale_milli: int,
    pub chord_figure_scale_milli: int,
    pub function_scale_milli: int,
    pub function_figure_scale_milli: int,
    pub tpl_circle_scale_milli: int,
    pub tpl_figure_scale_milli: int,
    pub halfstep_label_scale_milli: int,
    pub wholestep_label_scale_milli: int,
    pub tie_segments: int,
}

impl View for Style {
    type V = StyleView;

    open spec fn view(&self) -> StyleView {
        StyleView {
            space_step: self.space_step as int,
            notelines_width: self.notelines_width as int,
            stem_width: self.stem_width as int,
            stem_width_half: self.stem_width_half as int,
            stem_length_halves: self.stem_length_halves as int,
            stem_head_correction: self.stem_head_correction as int,
            beam_height: self.beam_height as int,
            beam_sub_distance: self.beam_sub_distance as int,
            head_width_black: self.head_width_black as int,
            tie_space: self.tie_space as int,
            tie_space_bottom: self.tie_space_bottom as int,
            tie_from_width: self.tie_from_width as int,
            tie_to_width: self.tie_to_width as int,
            tie_adjust_x: self.tie_adjust_x as int,
            tie_height: self.tie_height as int,
            tie_thickness: self.tie_thickness as int,
            dev_line_thickness: self.dev_line_thickness as int,
            barline_width_single: self.barline_width_single as int,
            barline_double_space: self.barline_double_space as int,
            flag_x_adjust: self.flag_x_adjust as int,
            accidental_width_sharp: self.accidental_width_sharp as int,
            accidental_width_flat: self.accidental_width_flat as int,
            chord_margin: self.chord_margin as int,
            lyrics_scale_milli: self.lyrics_scale_milli as int,
            chord_scale_milli: self.chord_scale_milli as int,
            chord_accidental_scale_milli: self.chord_accidental_scale_milli as int,
            chord_figure_scale_milli: self.chord_figure_scale_milli as int,
            function_scale_milli: self.function_scale_milli as int,
            function_figure_scale_milli: self.function_figure_scale_milli as int,
            tpl_circle_scale_milli: self.tpl_circle_scale_milli as int,
            tpl_figure_scale_milli: self.tpl_figure_scale_milli as int,
            halfstep_label_scale_milli: self.halfstep_label_scale_milli as int,
            wholestep_label_scale_milli: self.wholestep_label_scale_milli as int,
            tie_segments: self.tie_segments as int,
        }
    }
}

impl DeepView for Style {
    type V = StyleView;

    open spec fn deep_view(&self) -> StyleView {
        self.view()
    }
}

impl StyleView {
    /// The staff interline distance.
    pub open spec fn space(self) -> int {
        20 * self.space_step
    }

    /// Half the staff interline distance.
    pub open spec fn half_space(self) -> int {
        10 * self.space_step
    }

    /// A quarter of the staff interline distance.
    pub open spec fn quarter_space(self) -> int {
        5 * self.space_step
    }

    /// `twentieths / 20` of the staff interline distance.
    pub open spec fn sp(self, twentieths: int) -> int {
        twentieths * self.space_step
    }

    /// Stem length as a distance.
    pub open spec fn stem_length(self) -> int {
        self.stem_length_halves * self.half_space()
    }

    /// The bounds every component relies on.
    pub open spec fn wf(self) -> bool {
        &&& 1 <= self.space_step <= 1000
        &&& 0 <= self.notelines_width <= 100000
        &&& 0 <= self.stem_width <= 100000
        &&& 0 <= self.stem_width_half <= 50000
        &&& self.stem_width == 2 * self.stem_width_half
        &&& 0 <= self.stem_length_halves <= 100
        &&& 0 <= self.stem_head_correction <= 100000
        &&& 0 <= self.beam_height <= 100000
        &&& 0 <= self.beam_sub_distance <= 100000
        &&& 0 <= self.head_width_black <= 100000
        &&& 0 <= self.tie_space <= 100000
        &&& 0 <= self.tie_space_bottom <= 100000
        &&& 0 <= self.tie_from_width <= 100000
        &&& 0 <= self.tie_to_width <= 100000
        &&& 0 <= self.tie_adjust_x <= 100000
        &&& 0 <= self.tie_height <= 100000
        &&& 0 <= self.tie_thickness <= 100000
        &&& 0 <= self.dev_line_thickness <= 100000
        &&& 0 <= self.barline_width_single <= 100000
        &&& 0 <= self.barline_double_space <= 100000
        &&& 0 <= self.flag_x_adjust <= 100000
        &&& 0 <= self.accidental_width_sharp <= 100000
        &&& 0 <= self.accidental_width_flat <= 100000
        &&& 0 <= self.chord_margin <= 100000
        &&& -10000 <= self.lyrics_scale_milli <= 10000
        &&& -10000 <= self.chord_scale_milli <= 10000
        &&& -10000 <= self.chord_accidental_scale_milli <= 10000
        &&& -10000 <= self.chord_figure_scale_milli <= 10000
        &&& -10000 <= self.function_scale_milli <= 10000
        &&& -10000 <= self.function_figure_scale_milli <= 10000
        &&& -10000 <= self.tpl_circle_scale_milli <= 10000
        &&& -10000 <= self.tpl_figure_scale_milli <= 10000
        &&& -10000 <= self.halfstep_label_scale_milli <= 10000
        &&& -10000 <= self.wholestep_label_scale_milli <= 10000
        &&& 1 <= self.tie_segments <= 255
    }
}

impl Style {
    /// The stock engraving style: `SPACE` is 100 units.
    pub fn standard() -> (s: Style)
        ensures
            s@.wf(),
            s@ == (StyleView {
                space_step: 5,
                notelines_width: 2,
                stem_width: 6,
                stem_width_half: 3,
                stem_length_halves: 7,
                stem_head_correction: 2,
                beam_height: 50,
                beam_sub_distance: 75,
                head_width_black: 130,
                tie_space: 50,
                tie_space_bottom: 100,
                tie_from_width: 60,
                tie_to_width: 60,
                tie_adjust_x: 30,
                tie_height: 70,
                tie_thickness: 15,
                dev_line_thickness: 2,
                barline_width_single: 8,
                barline_double_space: 20,
                flag_x_adjust: 3,
                accidental_width_sharp: 100,
                accidental_width_flat: 90,
                chord_margin: 40,
                lyrics_scale_milli: 70,
                chord_scale_milli: 100,
                chord_accidental_scale_milli: 70,
                chord_figure_scale_milli: 70,
                function_scale_milli: 100,
                function_figure_scale_milli: 70,
                tpl_circle_scale_milli: 140,
                tpl_figure_scale_milli: 70,
                halfstep_label_scale_milli: 50,
                wholestep_label_scale_milli: 40,
                tie_segments: 15,
            }),
    {
        Style {
            space_step: 5,
            notelines_width: 2,
            stem_width: 6,
            stem_width_half: 3,
            stem_length_halves: 7,
            stem_head_correction: 2,
            beam_height: 50,
            beam_sub_distance: 75,
            head_width_black: 130,
            tie_space: 50,
            tie_space_bottom: 100,
            tie_from_width: 60,
            tie_to_width: 60,
            tie_adjust_x: 30,
            tie_height: 70,
            tie_thickness: 15,
            dev_line_thickness: 2,
            barline_width_single: 8,
            barline_double_space: 20,
            flag_x_adjust: 3,
            accidental_width_sharp: 100,
            accidental_width_flat: 90,
            chord_margin: 40,
            lyrics_scale_milli: 70,
            chord_scale_milli: 100,
            chord_accidental_scale_milli: 70,
            chord_figure_scale_milli: 70,
            function_scale_milli: 100,
            function_figure_scale_milli: 70,
            tpl_circle_scale_milli: 140,
            tpl_figure_scale_milli: 70,
            halfstep_label_scale_milli: 50,
            wholestep_label_scale_milli: 40,
            tie_segments: 15,
        }
    }
}

} // verus!
