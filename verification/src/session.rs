//! The interactive application's state: output dimensions, zoom, which
//! images are held, and the outcome of the last load, crop and save.  The
//! state changes only through named actions; rendering is a pure read of
//! it, and the images themselves stay with the caller.

use vstd::prelude::*;

verus! {

/// Zoom step of the keyboard shortcuts, in hundredths.
pub const ZOOM_STEP100: u32 = 10;

/// One interactive session.  `has_original` and `has_cropped` say which
/// images the caller currently holds for this state; the three error slots
/// carry what the last load, crop and save left behind.
pub struct AppState {
    pub out_x: u32,
    pub out_y: u32,
    pub zoom100: u32,
    pub try_load: bool,
    pub has_original: bool,
    pub has_cropped: bool,
    pub load_err: Option<String>,
    pub crop_err: Option<String>,
    pub save_err: Option<String>,
}

impl AppState {
    /// A fresh session: 600 by 300 output, zoom 1.2, nothing loaded and no
    /// errors.
    pub fn new() -> (r: AppState)
        ensures
            r.out_x == 600,
            r.out_y == 300,
            r.zoom100 == 120,
            !r.try_load,
            !r.has_original,
            !r.has_cropped,
            r.load_err is None,
            r.crop_err is None,
            r.save_err is None,
    {
        AppState {
            out_x: 600,
            out_y: 300,
            zoom100: 120,
            try_load: false,
            has_original: false,
            has_cropped: false,
            load_err: None,
            crop_err: None,
            save_err: None,
        }
    }

    /// Drops the loaded original image and clears the crop and save
    /// outcomes.
    pub fn clear_orig_images(&mut self)
        ensures
            *final(self) == (AppState {
                has_original: false,
                crop_err: None,
                save_err: None,
                ..*old(self)
            }),
    {
        self.has_original = false;
        self.crop_err = None;
        self.save_err = None;
    }

    /// Drops the cropped image and clears the crop and save outcomes.
    pub fn clear_cropped_images(&mut self)
        ensures
            *final(self) == (AppState {
                has_cropped: false,
                crop_err: None,
                save_err: None,
                ..*old(self)
            }),
    {
        self.has_cropped = false;
        self.crop_err = None;
        self.save_err = None;
    }

    /// Drops both images and clears the crop and save outcomes.
    pub fn clear_all_images(&mut self)
        ensures
            *final(self) == (AppState {
                has_original: false,
                has_cropped: false,
                crop_err: None,
                save_err: None,
                ..*old(self)
            }),
    {
        self.clear_orig_images();
        self.clear_cropped_images();
    }

    /// Records the outcome of loading a new source image.  On success the
    /// session holds a fresh original and no cropped result; on failure it
    /// holds nothing.  Either way a load has been tried and the crop and
    /// save outcomes are reset.
    pub fn finish_load(&mut self, error: Option<String>)
        ensures
            *final(self) == (AppState {
                try_load: true,
                has_original: error is None,
                has_cropped: false,
                load_err: error,
                crop_err: None,
                save_err: None,
                ..*old(self)
            }),
    {
        self.try_load = true;
        self.has_original = error.is_none();
        self.has_cropped = false;
        self.load_err = error;
        self.crop_err = None;
        self.save_err = None;
    }

    /// Records the outcome of one crop: on success the session holds a new
    /// cropped result; on failure the previous one stays, with the error
    /// beside it.
    pub fn finish_crop(&mut self, error: Option<String>)
        ensures
            error is None ==> *final(self) == (AppState {
                has_cropped: true,
                crop_err: None,
                ..*old(self)
            }),
            error is Some ==> *final(self) == (AppState { crop_err: error, ..*old(self) }),
    {
        if error.is_none() {
            self.has_cropped = true;
            self.crop_err = None;
        } else {
            self.crop_err = error;
        }
    }

    /// Records the outcome of writing the cropped result out.
    pub fn finish_save(&mut self, error: Option<String>)
        ensures
            error is None ==> *final(self) == (AppState {
                crop_err: None,
                save_err: None,
                ..*old(self)
            }),
            error is Some ==> *final(self) == (AppState { save_err: error, ..*old(self) }),
    {
        if error.is_none() {
            self.crop_err = None;
            self.save_err = None;
        } else {
            self.save_err = error;
        }
    }

    /// Raises the zoom by one step, saturating at the top of `u32`.
    pub fn zoom_in(&mut self)
        ensures
            *final(self) == (AppState {
                zoom100: (if old(self).zoom100 + ZOOM_STEP100 <= u32::MAX {
                    (old(self).zoom100 + ZOOM_STEP100) as u32
                } else {
                    u32::MAX
                }),
                ..*old(self)
            }),
    {
        if self.zoom100 <= u32::MAX - ZOOM_STEP100 {
            self.zoom100 = self.zoom100 + ZOOM_STEP100;
        } else {
            self.zoom100 = u32::MAX;
        }
    }

    /// Lowers the zoom by one step, saturating at zero.
    pub fn zoom_out(&mut self)
        ensures
            *final(self) == (AppState {
                zoom100: (if old(self).zoom100 >= ZOOM_STEP100 {
                    (old(self).zoom100 - ZOOM_STEP100) as u32
                } else {
                    0
                }),
                ..*old(self)
            }),
    {
        if self.zoom100 >= ZOOM_STEP100 {
            self.zoom100 = self.zoom100 - ZOOM_STEP100;
        } else {
            self.zoom100 = 0;
        }
    }
}

pub open spec fn is_space_char_spec(c: char) -> bool {
    c == ' ' || c == '\t' || c == '\n' || c == '\r'
}

fn is_space_char(c: char) -> (r: bool)
    ensures
        r == is_space_char_spec(c),
{
    c == ' ' || c == '\t' || c == '\n' || c == '\r'
}

/// The sequence without its leading spaces.
pub open spec fn trim_front_spec(s: Seq<char>) -> Seq<char>
    decreases s.len(),
{
    if s.len() > 0 && is_space_char_spec(s[0]) {
        trim_front_spec(s.drop_first())
    } else {
        s
    }
}

/// The sequence without its trailing spaces.
pub open spec fn trim_back_spec(s: Seq<char>) -> Seq<char>
    decreases s.len(),
{
    if s.len() > 0 && is_space_char_spec(s.last()) {
        trim_back_spec(s.drop_last())
    } else {
        s
    }
}

pub open spec fn is_digit_char(c: char) -> bool {
    '0' <= c <= '9'
}

pub open spec fn digit_val(c: char) -> nat {
    if c == '0' {
        0
    } else if c == '1' {
        1
    } else if c == '2' {
        2
    } else if c == '3' {
        3
    } else if c == '4' {
        4
    } else if c == '5' {
        5
    } else if c == '6' {
        6
    } else if c == '7' {
        7
    } else if c == '8' {
        8
    } else {
        9
    }
}

pub open spec fn all_digits(s: Seq<char>) -> bool {
    forall|i: int| 0 <= i < s.len() ==> is_digit_char(#[trigger] s[i])
}

/// The value of a digit string.
pub open spec fn digits_val(s: Seq<char>) -> nat
    decreases s.len(),
{
    if s.len() == 0 {
        0
    } else {
        digits_val(s.drop_last()) * 10 + digit_val(s.last())
    }
}

/// The digits a numeric text field offers: its content trimmed of
/// surrounding spaces, with one leading plus sign dropped.
pub open spec fn field_body_spec(s: Seq<char>) -> Seq<char> {
    let t = trim_back_spec(trim_front_spec(s));
    if t.len() > 0 && t[0] == '+' {
        t.drop_first()
    } else {
        t
    }
}

/// What a numeric text field yields: its digits read as a decimal; anything
/// else, including an overflowing value, yields zero.
pub open spec fn parse_field_spec(s: Seq<char>) -> u32 {
    let body = field_body_spec(s);
    if body.len() > 0 && all_digits(body) && digits_val(body) <= u32::MAX {
        digits_val(body) as u32
    } else {
        0
    }
}

proof fn lemma_digits_val_prefix_bound(s: Seq<char>, k: int)
    requires
        0 <= k <= s.len(),
    ensures
        digits_val(s) >= digits_val(s.take(k)),
    decreases s.len() - k,
{
    if k < s.len() {
        assert(s.take(k + 1).drop_last() =~= s.take(k));
        assert(digits_val(s.take(k + 1)) == digits_val(s.take(k)) * 10 + digit_val(
            s.take(k + 1).last(),
        ));
        lemma_digits_val_prefix_bound(s, k + 1);
    } else {
        assert(s.take(k) =~= s);
    }
}

/// Reads a numeric text field: the trimmed content as a decimal `u32`, or
/// zero when it is empty, not a number, or too large.
pub fn parse_field_u32(s: &str) -> (r: u32)
    ensures
        r == parse_field_spec(s@),
{
    let n = s.unicode_len();
    proof {
        assert(s@.subrange(0, n as int) =~= s@);
    }
    let mut a: usize = 0;
    while a < n && is_space_char(s.get_char(a))
        invariant
            a <= n,
            n == s@.len(),
            trim_front_spec(s@) == trim_front_spec(s@.subrange(a as int, n as int)),
        decreases n - a,
    {
        proof {
            assert(s@.subrange(a as int, n as int).drop_first() =~= s@.subrange(
                a + 1 as int,
                n as int,
            ));
        }
        a = a + 1;
    }
    proof {
        if a < n {
            assert(trim_front_spec(s@.subrange(a as int, n as int)) == s@.subrange(
                a as int,
                n as int,
            ));
        } else {
            assert(s@.subrange(a as int, n as int) =~= Seq::<char>::empty());
        }
    }
    let mut b: usize = n;
    while b > a && is_space_char(s.get_char(b - 1))
        invariant
            a <= b <= n,
            n == s@.len(),
            trim_front_spec(s@) == trim_front_spec(s@.subrange(a as int, n as int)),
            trim_front_spec(s@) == s@.subrange(a as int, n as int),
            trim_back_spec(s@.subrange(a as int, n as int)) == trim_back_spec(
                s@.subrange(a as int, b as int),
            ),
        decreases b,
    {
        proof {
            assert(s@.subrange(a as int, b as int).drop_last() =~= s@.subrange(
                a as int,
                b - 1 as int,
            ));
        }
        b = b - 1;
    }
    proof {
        if b > a {
            assert(trim_back_spec(s@.subrange(a as int, b as int)) == s@.subrange(
                a as int,
                b as int,
            ));
        } else {
            assert(s@.subrange(a as int, b as int) =~= Seq::<char>::empty());
        }
    }
    let ghost t = trim_back_spec(trim_front_spec(s@));
    proof {
        assert(t == s@.subrange(a as int, b as int));
    }
    let start = if a < b && s.get_char(a) == '+' {
        a + 1
    } else {
        a
    };
    let ghost body = s@.subrange(start as int, b as int);
    proof {
        if a < b && s@[a as int] == '+' {
            assert(t.drop_first() =~= body);
        } else {
            assert(t =~= body);
        }
    }
    if start == b {
        return 0;
    }
    let mut acc: u32 = 0;
    let mut i = start;
    while i < b
        invariant
            start <= i <= b,
            start < b,
            b <= n,
            n == s@.len(),
            body == s@.subrange(start as int, b as int),
            body == field_body_spec(s@),
            all_digits(s@.subrange(start as int, i as int)),
            acc == digits_val(s@.subrange(start as int, i as int)),
        decreases b - i,
    {
        let c = s.get_char(i);
        if c < '0' || c > '9' {
            proof {
                assert(body[i - start] == c);
                assert(!is_digit_char(c));
            }
            return 0;
        }
        let d: u32 = char_digit_value(c);
        if acc > (u32::MAX - d) / 10 {
            proof {
                assert(s@.subrange(start as int, i + 1 as int).drop_last() =~= s@.subrange(
                    start as int,
                    i as int,
                ));
                assert(digits_val(s@.subrange(start as int, i + 1 as int)) > u32::MAX);
                assert(body.take(i + 1 - start) =~= s@.subrange(start as int, i + 1 as int));
                lemma_digits_val_prefix_bound(body, i + 1 - start);
            }
            return 0;
        }
        proof {
            assert(s@.subrange(start as int, i + 1 as int).drop_last() =~= s@.subrange(
                start as int,
                i as int,
            ));
        }
        acc = acc * 10 + d;
        i = i + 1;
    }
    proof {
        assert(s@.subrange(start as int, b as int) == body);
    }
    acc
}

fn char_digit_value(c: char) -> (r: u32)
    requires
        is_digit_char(c),
    ensures
        r == digit_val(c),
        r <= 9,
{
    if c == '0' {
        0
    } else if c == '1' {
        1
    } else if c == '2' {
        2
    } else if c == '3' {
        3
    } else if c == '4' {
        4
    } else if c == '5' {
        5
    } else if c == '6' {
        6
    } else if c == '7' {
        7
    } else if c == '8' {
        8
    } else {
        9
    }
}

} // verus!
