//! Where the parts of an asset are found: the file paths of an item of a
//! collection (skins, emoticons, ...), the fallback to the `default` item,
//! and the messages for parts that cannot be found. Paths are built in an
//! `arrayvec::ArrayString` of 4096 bytes.
use arrayvec::ArrayString;
use vstd::prelude::*;

verus! {

#[verifier::external_type_specification]
#[verifier::external_body]
pub struct ExArrayString<const CAP: usize>(ArrayString<CAP>);

/// Bytes a char takes in UTF-8.
pub open spec fn char_utf8_len(c: char) -> nat {
    if (c as u32) < 0x80 {
        1
    } else if (c as u32) < 0x800 {
        2
    } else if (c as u32) < 0x10000 {
        3
    } else {
        4
    }
}

/// Bytes a string takes in UTF-8.
pub open spec fn utf8_len(s: Seq<char>) -> nat
    decreases s.len(),
{
    if s.len() == 0 {
        0
    } else {
        utf8_len(s.drop_last()) + char_utf8_len(s.last())
    }
}

/// The characters held by a path buffer.
pub uninterp spec fn path_chars(s: ArrayString<4096>) -> Seq<char>;

/// `ArrayString::<4096>::from`: claimed to succeed exactly when the string's
/// UTF-8 bytes fit in the buffer (`try_push_str` compares `s.len()`, the
/// byte length, with the room left), and then to hold the string.
#[verifier::external_body]
fn path_from_str(s: &str) -> (r: Option<ArrayString<4096>>)
    ensures
        r is Some <==> utf8_len(s@) <= 4096,
        r matches Some(a) ==> path_chars(a) == s@,
{
    ArrayString::<4096>::from(s).ok()
}

/// `ArrayString::push_str`, which panics when the bytes do not fit; claimed
/// to append the string.
#[verifier::external_body]
fn path_push_str(a: &mut ArrayString<4096>, s: &str)
    requires
        utf8_len(path_chars(*old(a))) + utf8_len(s@) <= 4096,
    ensures
        path_chars(*final(a)) == path_chars(*old(a)) + s@,
{
    a.push_str(s)
}

/// `ArrayString::as_str`: claimed to give the characters held.
#[verifier::external_body]
fn path_as_str(a: &ArrayString<4096>) -> (r: &str)
    ensures
        r@ == path_chars(*a),
{
    a.as_str()
}

proof fn lemma_utf8_len_concat(a: Seq<char>, b: Seq<char>)
    ensures
        utf8_len(a + b) == utf8_len(a) + utf8_len(b),
    decreases b.len(),
{
    if b.len() == 0 {
        assert(a + b =~= a);
    } else {
        lemma_utf8_len_concat(a, b.drop_last());
        assert((a + b).drop_last() =~= a + b.drop_last());
        assert((a + b).last() == b.last());
    }
}

/// The extra directories, each followed by `/`.
pub open spec fn joined_dirs(dirs: Seq<&str>) -> Seq<char>
    decreases dirs.len(),
{
    if dirs.len() == 0 {
        Seq::empty()
    } else {
        joined_dirs(dirs.drop_last()) + dirs.last()@ + "/"@
    }
}

proof fn lemma_joined_dirs_concat(a: Seq<&str>, b: Seq<&str>)
    ensures
        joined_dirs(a + b) == joined_dirs(a) + joined_dirs(b),
    decreases b.len(),
{
    if b.len() == 0 {
        assert(a + b =~= a);
        assert(joined_dirs(a) + joined_dirs(b) =~= joined_dirs(a));
    } else {
        lemma_joined_dirs_concat(a, b.drop_last());
        assert((a + b).drop_last() =~= a + b.drop_last());
        assert((a + b).last() == b.last());
        assert(joined_dirs(a + b) =~= joined_dirs(a) + joined_dirs(b));
    }
}

/// `<collection><item>/<dir>/.../<part>.png`.
pub open spec fn part_path(collection: Seq<char>, item: Seq<char>, dirs: Seq<&str>, part: Seq<char>) -> Seq<
    char,
> {
    collection + item + "/"@ + joined_dirs(dirs) + part + ".png"@
}

/// The part of the `default` item: `<collection>default/<part>.png`.
pub open spec fn default_part_path(collection: Seq<char>, part: Seq<char>) -> Seq<char> {
    collection + "default"@ + "/"@ + part + ".png"@
}

/// The path buffer of a collection directory such as `skins/`.
pub fn collection_path(dir: &str) -> (r: ArrayString<4096>)
    requires
        utf8_len(dir@) <= 4096,
    ensures
        path_chars(r) == dir@,
{
    let r = path_from_str(dir);
    r.unwrap()
}

fn push_fitting(p: &mut ArrayString<4096>, s: &str, Ghost(rest): Ghost<Seq<char>>)
    requires
        utf8_len(path_chars(*old(p)) + s@ + rest) <= 4096,
    ensures
        path_chars(*final(p)) == path_chars(*old(p)) + s@,
{
    proof {
        lemma_utf8_len_concat(path_chars(*p) + s@, rest);
        lemma_utf8_len_concat(path_chars(*p), s@);
    }
    path_push_str(p, s);
}

fn char_bytes(c: char) -> (r: usize)
    ensures
        r == char_utf8_len(c),
{
    let v = c as u32;
    if v < 0x80 {
        1
    } else if v < 0x800 {
        2
    } else if v < 0x10000 {
        3
    } else {
        4
    }
}

/// What is left of `budget` bytes after the UTF-8 bytes of `s`, if they
/// fit.
fn bytes_left(s: &str, budget: usize) -> (r: Option<usize>)
    ensures
        r is Some <==> utf8_len(s@) <= budget,
        r matches Some(rest) ==> rest == budget - utf8_len(s@),
{
    let n = s.unicode_len();
    let mut rest = budget;
    let mut i: usize = 0;
    while i < n
        invariant
            n == s@.len(),
            i <= n,
            utf8_len(s@.take(i as int)) + rest == budget,
        decreases n - i,
    {
        let c = s.get_char(i);
        let b = char_bytes(c);
        proof {
            assert(s@.take(i + 1).drop_last() =~= s@.take(i as int));
            assert(s@.take(i + 1).last() == c);
        }
        if b > rest {
            proof {
                lemma_utf8_len_concat(s@.take(i + 1), s@.skip(i + 1));
                assert(s@.take(i + 1) + s@.skip(i + 1) =~= s@);
            }
            return None;
        }
        rest = rest - b;
        i = i + 1;
    }
    proof {
        assert(s@.take(i as int) =~= s@);
    }
    Some(rest)
}

/// Whether the path of a part (see `file_part_path`) fits in a path
/// buffer.
pub fn part_path_fits(
    collection_path: &ArrayString<4096>,
    item_name: &str,
    extra_paths: &[&str],
    part_name: &str,
) -> (r: bool)
    ensures
        r == (utf8_len(part_path(path_chars(*collection_path), item_name@, extra_paths@, part_name@))
            <= 4096),
{
    let ghost c = path_chars(*collection_path);
    let ghost dirs = extra_paths@;
    let ghost total = part_path(c, item_name@, dirs, part_name@);
    proof {
        reveal_strlit("/");
        reveal_strlit(".png");
        lemma_utf8_len_concat(c + item_name@ + "/"@ + joined_dirs(dirs) + part_name@, ".png"@);
        lemma_utf8_len_concat(c + item_name@ + "/"@ + joined_dirs(dirs), part_name@);
        lemma_utf8_len_concat(c + item_name@ + "/"@, joined_dirs(dirs));
        lemma_utf8_len_concat(c + item_name@, "/"@);
        lemma_utf8_len_concat(c, item_name@);
    }
    let mut rest: usize = match bytes_left(path_as_str(collection_path), 4096) {
        Some(r) => r,
        None => return false,
    };
    rest = match bytes_left(item_name, rest) {
        Some(r) => r,
        None => return false,
    };
    rest = match bytes_left("/", rest) {
        Some(r) => r,
        None => return false,
    };
    let mut i: usize = 0;
    while i < extra_paths.len()
        invariant
            i <= dirs.len(),
            dirs == extra_paths@,
            c == path_chars(*collection_path),
            total == part_path(c, item_name@, dirs, part_name@),
            utf8_len(total) == utf8_len(c) + utf8_len(item_name@) + utf8_len("/"@) + utf8_len(
                joined_dirs(dirs),
            ) + utf8_len(part_name@) + utf8_len(".png"@),
            utf8_len(c) + utf8_len(item_name@) + utf8_len("/"@) + utf8_len(
                joined_dirs(dirs.take(i as int)),
            ) + rest == 4096,
        decreases dirs.len() - i,
    {
        let d = extra_paths[i];
        proof {
            assert(dirs.take(i + 1) =~= dirs.take(i as int) + seq![d]);
            lemma_joined_dirs_concat(dirs.take(i as int), seq![d]);
            assert(seq![d].drop_last() =~= Seq::<&str>::empty());
            assert(seq![d].last() == d);
            assert(joined_dirs(Seq::<&str>::empty()) =~= Seq::<char>::empty());
            assert(joined_dirs(seq![d]) =~= Seq::<char>::empty() + d@ + "/"@);
            assert(joined_dirs(seq![d]) =~= d@ + "/"@);
            lemma_utf8_len_concat(joined_dirs(dirs.take(i as int)), d@ + "/"@);
            lemma_utf8_len_concat(d@, "/"@);
        }
        rest = match bytes_left(d, rest) {
            Some(r) => r,
            None => {
                proof {
                    lemma_joined_dirs_concat(dirs.take(i + 1), dirs.skip(i + 1));
                    assert(dirs.take(i + 1) + dirs.skip(i + 1) =~= dirs);
                    lemma_utf8_len_concat(joined_dirs(dirs.take(i + 1)), joined_dirs(dirs.skip(i + 1)));
                    assert(utf8_len(joined_dirs(dirs)) >= utf8_len(joined_dirs(dirs.take(i + 1))));
                    assert(utf8_len(joined_dirs(dirs.take(i + 1))) == utf8_len(
                        joined_dirs(dirs.take(i as int)),
                    ) + utf8_len(d@) + utf8_len("/"@));
                    assert(utf8_len(total) == utf8_len(c) + utf8_len(item_name@) + utf8_len("/"@)
                        + utf8_len(joined_dirs(dirs)) + utf8_len(part_name@) + utf8_len(".png"@));
                }
                return false;
            },
        };
        rest = match bytes_left("/", rest) {
            Some(r) => r,
            None => {
                proof {
                    lemma_joined_dirs_concat(dirs.take(i + 1), dirs.skip(i + 1));
                    assert(dirs.take(i + 1) + dirs.skip(i + 1) =~= dirs);
                    lemma_utf8_len_concat(joined_dirs(dirs.take(i + 1)), joined_dirs(dirs.skip(i + 1)));
                    assert(utf8_len(joined_dirs(dirs)) >= utf8_len(joined_dirs(dirs.take(i + 1))));
                    assert(utf8_len(joined_dirs(dirs.take(i + 1))) == utf8_len(
                        joined_dirs(dirs.take(i as int)),
                    ) + utf8_len(d@) + utf8_len("/"@));
                    assert(utf8_len(total) == utf8_len(c) + utf8_len(item_name@) + utf8_len("/"@)
                        + utf8_len(joined_dirs(dirs)) + utf8_len(part_name@) + utf8_len(".png"@));
                }
                return false;
            },
        };
        i = i + 1;
    }
    proof {
        assert(dirs.take(i as int) =~= dirs);
    }
    rest = match bytes_left(part_name, rest) {
        Some(r) => r,
        None => return false,
    };
    match bytes_left(".png", rest) {
        Some(_) => true,
        None => false,
    }
}

/// Whether the path of a part of the default item (see
/// `default_file_part_path`) fits in a path buffer.
pub fn default_part_path_fits(collection_path: &ArrayString<4096>, part_name: &str) -> (r: bool)
    ensures
        r == (utf8_len(default_part_path(path_chars(*collection_path), part_name@)) <= 4096),
{
    let ghost c = path_chars(*collection_path);
    proof {
        lemma_utf8_len_concat(c + "default"@ + "/"@ + part_name@, ".png"@);
        lemma_utf8_len_concat(c + "default"@ + "/"@, part_name@);
        lemma_utf8_len_concat(c + "default"@, "/"@);
        lemma_utf8_len_concat(c, "default"@);
    }
    let mut rest: usize = match bytes_left(path_as_str(collection_path), 4096) {
        Some(r) => r,
        None => return false,
    };
    rest = match bytes_left("default", rest) {
        Some(r) => r,
        None => return false,
    };
    rest = match bytes_left("/", rest) {
        Some(r) => r,
        None => return false,
    };
    rest = match bytes_left(part_name, rest) {
        Some(r) => r,
        None => return false,
    };
    match bytes_left(".png", rest) {
        Some(_) => true,
        None => false,
    }
}

/// The path of a part of an item: the collection's path, the item's
/// directory, the extra directories and the part's file name with `.png`.
pub fn file_part_path(
    collection_path: &ArrayString<4096>,
    item_name: &str,
    extra_paths: &[&str],
    part_name: &str,
) -> (r: ArrayString<4096>)
    requires
        utf8_len(part_path(path_chars(*collection_path), item_name@, extra_paths@, part_name@))
            <= 4096,
    ensures
        path_chars(r) == part_path(path_chars(*collection_path), item_name@, extra_paths@, part_name@),
{
    let ghost c = path_chars(*collection_path);
    let ghost dirs = extra_paths@;
    let ghost total = part_path(c, item_name@, dirs, part_name@);
    let mut p = *collection_path;
    proof {
        assert(total =~= path_chars(p) + item_name@ + ("/"@ + joined_dirs(dirs) + part_name@
            + ".png"@));
    }
    push_fitting(&mut p, item_name, Ghost("/"@ + joined_dirs(dirs) + part_name@ + ".png"@));
    proof {
        assert(total =~= path_chars(p) + "/"@ + (joined_dirs(dirs) + part_name@ + ".png"@));
    }
    push_fitting(&mut p, "/", Ghost(joined_dirs(dirs) + part_name@ + ".png"@));
    let mut i: usize = 0;
    while i < extra_paths.len()
        invariant
            i <= dirs.len(),
            dirs == extra_paths@,
            total == part_path(c, item_name@, dirs, part_name@),
            utf8_len(total) <= 4096,
            path_chars(p) == c + item_name@ + "/"@ + joined_dirs(dirs.take(i as int)),
        decreases dirs.len() - i,
    {
        let ghost before = dirs.take(i as int);
        let ghost after = dirs.skip(i as int + 1);
        proof {
            assert(dirs =~= dirs.take(i as int + 1) + after);
            lemma_joined_dirs_concat(dirs.take(i as int + 1), after);
            assert(dirs.take(i as int + 1).drop_last() =~= before);
            assert(total =~= path_chars(p) + dirs[i as int]@ + ("/"@ + joined_dirs(after)
                + part_name@ + ".png"@));
        }
        push_fitting(&mut p, extra_paths[i], Ghost("/"@ + joined_dirs(after) + part_name@ + ".png"@));
        proof {
            assert(total =~= path_chars(p) + "/"@ + (joined_dirs(after) + part_name@ + ".png"@));
        }
        push_fitting(&mut p, "/", Ghost(joined_dirs(after) + part_name@ + ".png"@));
        i = i + 1;
        proof {
            assert(path_chars(p) =~= c + item_name@ + "/"@ + joined_dirs(dirs.take(i as int)));
        }
    }
    proof {
        assert(dirs.take(i as int) =~= dirs);
        assert(total =~= path_chars(p) + part_name@ + ".png"@);
    }
    push_fitting(&mut p, part_name, Ghost(".png"@));
    proof {
        assert(total =~= path_chars(p) + ".png"@ + Seq::<char>::empty());
    }
    push_fitting(&mut p, ".png", Ghost(Seq::<char>::empty()));
    proof {
        assert(path_chars(p) =~= total);
    }
    p
}

/// The path of a part of the `default` item, tried when the item lacks it.
pub fn default_file_part_path(collection_path: &ArrayString<4096>, part_name: &str) -> (r:
    ArrayString<4096>)
    requires
        utf8_len(default_part_path(path_chars(*collection_path), part_name@)) <= 4096,
    ensures
        path_chars(r) == default_part_path(path_chars(*collection_path), part_name@),
{
    let ghost c = path_chars(*collection_path);
    let ghost total = default_part_path(c, part_name@);
    let mut p = *collection_path;
    proof {
        assert(total =~= path_chars(p) + "default"@ + ("/"@ + part_name@ + ".png"@));
    }
    push_fitting(&mut p, "default", Ghost("/"@ + part_name@ + ".png"@));
    proof {
        assert(total =~= path_chars(p) + "/"@ + (part_name@ + ".png"@));
    }
    push_fitting(&mut p, "/", Ghost(part_name@ + ".png"@));
    proof {
        assert(total =~= path_chars(p) + part_name@ + ".png"@);
    }
    push_fitting(&mut p, part_name, Ghost(".png"@));
    proof {
        assert(total =~= path_chars(p) + ".png"@ + Seq::<char>::empty());
    }
    push_fitting(&mut p, ".png", Ghost(Seq::<char>::empty()));
    proof {
        assert(path_chars(p) =~= total);
    }
    p
}

/// The item every collection has, and falls back to.
pub fn is_default_item(item_name: &str) -> (r: bool)
    ensures
        r == (item_name@ == "default"@),
{
    let a = String::from_str(item_name);
    let b = String::from_str("default");
    a == b
}

/// The message when the `default` item's part is missing too.
pub fn default_part_missing_message(part_name: &str, err: &str) -> (r: String)
    ensures
        r@ == "default asset part ("@ + part_name@ + ") not found: "@ + err@,
{
    let mut m = String::from_str("default asset part (");
    m.append(part_name);
    m.append(") not found: ");
    m.append(err);
    m
}

/// The message when a part of the `default` item itself is missing.
pub fn part_missing_message(part_name: &str, path: &ArrayString<4096>, err: &str) -> (r: String)
    ensures
        r@ == "default asset part ("@ + part_name@ + ") not found in \""@ + path_chars(*path)
            + "\": "@ + err@,
{
    let mut m = String::from_str("default asset part (");
    m.append(part_name);
    m.append(") not found in \"");
    m.append(path_as_str(path));
    m.append("\": ");
    m.append(err);
    m
}


/// The file of an emoticon, and the emoticon's name.
#[derive(Clone)]
pub struct LoadEmoticon {
    pub tex: Vec<u8>,
    pub emoticon_name: String,
}

impl Default for LoadEmoticon {
    fn default() -> (r: LoadEmoticon)
        ensures
            r.tex@ == Seq::<u8>::empty(),
            r.emoticon_name@ == Seq::<char>::empty(),
    {
        LoadEmoticon { tex: Vec::new(), emoticon_name: String::new() }
    }
}

/// The file of an entities set, and the set's name.
#[derive(Clone)]
pub struct LoadEntities {
    pub vanilla: Vec<u8>,
    pub entities_name: String,
}

impl Default for LoadEntities {
    fn default() -> (r: LoadEntities)
        ensures
            r.vanilla@ == Seq::<u8>::empty(),
            r.entities_name@ == Seq::<char>::empty(),
    {
        LoadEntities { vanilla: Vec::new(), entities_name: String::new() }
    }
}

/// The files of a HUD, and the HUD's name.
#[derive(Clone)]
pub struct LoadHud {
    pub heart: Vec<u8>,
    pub shield: Vec<u8>,
    pub hud_name: String,
}

impl Default for LoadHud {
    fn default() -> (r: LoadHud)
        ensures
            r.heart@ == Seq::<u8>::empty(),
            r.shield@ == Seq::<u8>::empty(),
            r.hud_name@ == Seq::<char>::empty(),
    {
        LoadHud { heart: Vec::new(), shield: Vec::new(), hud_name: String::new() }
    }
}

/// The files of a pickup set, and the set's name.
#[derive(Clone)]
pub struct LoadPickup {
    pub armor: Vec<u8>,
    pub health: Vec<u8>,
    pub pickup_name: String,
}

impl Default for LoadPickup {
    fn default() -> (r: LoadPickup)
        ensures
            r.armor@ == Seq::<u8>::empty(),
            r.health@ == Seq::<u8>::empty(),
            r.pickup_name@ == Seq::<char>::empty(),
    {
        LoadPickup { armor: Vec::new(), health: Vec::new(), pickup_name: String::new() }
    }
}

/// Number of eye variants of a skin.
pub const SKIN_EYE_COUNT: usize = 9;

/// The files of the parts of a skin (each with its outline), and the skin's
/// name. Every eye variant shows the same eye file.
#[derive(Clone)]
pub struct LoadSkin {
    pub body: Vec<u8>,
    pub body_outline: Vec<u8>,
    pub marking: Vec<u8>,
    pub marking_outline: Vec<u8>,
    pub decoration: Vec<u8>,
    pub decoration_outline: Vec<u8>,
    pub left_hand: Vec<u8>,
    pub left_hand_outline: Vec<u8>,
    pub right_hand: Vec<u8>,
    pub right_hand_outline: Vec<u8>,
    pub left_foot: Vec<u8>,
    pub left_foot_outline: Vec<u8>,
    pub right_foot: Vec<u8>,
    pub right_foot_outline: Vec<u8>,
    pub left_eyes: [Vec<u8>; SKIN_EYE_COUNT],
    pub left_eyes_outline: [Vec<u8>; SKIN_EYE_COUNT],
    pub right_eyes: [Vec<u8>; SKIN_EYE_COUNT],
    pub right_eyes_outline: [Vec<u8>; SKIN_EYE_COUNT],
    pub skin_name: String,
}

pub open spec fn all_files(eyes: [Vec<u8>; SKIN_EYE_COUNT], file: Seq<u8>) -> bool {
    forall|i: int| 0 <= i < SKIN_EYE_COUNT ==> (#[trigger] eyes@[i])@ == file
}

fn eye_files(file: &Vec<u8>) -> (r: [Vec<u8>; SKIN_EYE_COUNT])
    ensures
        all_files(r, file@),
{
    let r = [
        file.clone(),
        file.clone(),
        file.clone(),
        file.clone(),
        file.clone(),
        file.clone(),
        file.clone(),
        file.clone(),
        file.clone(),
    ];
    proof {
        assert forall|i: int| 0 <= i < SKIN_EYE_COUNT implies (#[trigger] r@[i])@ == file@ by {
            assert(r@[i] == r[i]);
        }
    }
    r
}

impl Default for LoadSkin {
    fn default() -> (r: LoadSkin)
        ensures
            r.body@ == Seq::<u8>::empty(),
            r.skin_name@ == Seq::<char>::empty(),
            all_files(r.left_eyes, Seq::empty()),
            all_files(r.right_eyes, Seq::empty()),
    {
        let empty: Vec<u8> = Vec::new();
        LoadSkin {
            body: Vec::new(),
            body_outline: Vec::new(),
            marking: Vec::new(),
            marking_outline: Vec::new(),
            decoration: Vec::new(),
            decoration_outline: Vec::new(),
            left_hand: Vec::new(),
            left_hand_outline: Vec::new(),
            right_hand: Vec::new(),
            right_hand_outline: Vec::new(),
            left_foot: Vec::new(),
            left_foot_outline: Vec::new(),
            right_foot: Vec::new(),
            right_foot_outline: Vec::new(),
            left_eyes: eye_files(&empty),
            left_eyes_outline: eye_files(&empty),
            right_eyes: eye_files(&empty),
            right_eyes_outline: eye_files(&empty),
            skin_name: String::new(),
        }
    }
}

impl LoadSkin {
    /// Every left eye variant and its outline show `eye_left`, every right
    /// one `eye_right`.
    pub fn set_eye_files(&mut self, eye_left: &Vec<u8>, eye_right: &Vec<u8>)
        ensures
            all_files(final(self).left_eyes, eye_left@),
            all_files(final(self).left_eyes_outline, eye_left@),
            all_files(final(self).right_eyes, eye_right@),
            all_files(final(self).right_eyes_outline, eye_right@),
            final(self).body == old(self).body,
            final(self).skin_name == old(self).skin_name,
    {
        self.left_eyes = eye_files(eye_left);
        self.left_eyes_outline = eye_files(eye_left);
        self.right_eyes = eye_files(eye_right);
        self.right_eyes_outline = eye_files(eye_right);
    }
}

} // verus!
