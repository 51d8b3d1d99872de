//! Classification of file and directory names.

use vstd::prelude::*;

verus! {

/// `m` occurs in `s` as a contiguous run of characters.
pub open spec fn contains_text(s: Seq<char>, m: Seq<char>) -> bool {
    exists|i: int| 0 <= i <= s.len() - m.len() && #[trigger] s.subrange(i, i + m.len()) == m
}

/// `s` begins with `m`.
pub open spec fn starts_with_text(s: Seq<char>, m: Seq<char>) -> bool {
    m.len() <= s.len() && s.subrange(0, m.len() as int) == m
}

pub open spec fn single_marker() -> Seq<char> {
    seq!['单', '讲']
}

pub open spec fn double_marker() -> Seq<char> {
    seq!['双', '讲']
}

pub open spec fn dynamic_marker() -> Seq<char> {
    seq!['动', '态']
}

pub open spec fn static_marker() -> Seq<char> {
    seq!['静', '态']
}

pub open spec fn full_track_marker() -> Seq<char> {
    seq!['整', '轨']
}

/// The recording scenario named by a talk-type folder.
#[derive(Clone, Copy, Debug, PartialEq, Eq, Structural)]
pub enum TalkType {
    Single,
    Double,
}

/// The test condition named by a folder.
#[derive(Clone, Copy, Debug, PartialEq, Eq, Structural)]
pub enum DynamicStaticTag {
    Dynamic,
    Static,
    Unspecified,
}

/// The recording channel named by a channel folder.
#[derive(Clone, Copy, Debug, PartialEq, Eq, Structural)]
pub enum ChannelType {
    Apk,
    FullTrack,
}

/// The seat named by a seat folder.
#[derive(Clone, Copy, Debug, PartialEq, Eq, Structural)]
pub enum SeatPosition {
    Driver,
    Passenger,
    RearLeft,
    RearRight,
}

/// The single-talk marker wins when a name holds both markers.
pub open spec fn talk_type_of(name: Seq<char>) -> Option<TalkType> {
    if contains_text(name, single_marker()) {
        Some(TalkType::Single)
    } else if contains_text(name, double_marker()) {
        Some(TalkType::Double)
    } else {
        None
    }
}

pub open spec fn tag_of(name: Seq<char>) -> DynamicStaticTag {
    if contains_text(name, dynamic_marker()) {
        DynamicStaticTag::Dynamic
    } else if contains_text(name, static_marker()) {
        DynamicStaticTag::Static
    } else {
        DynamicStaticTag::Unspecified
    }
}

/// The channel is read from the start of the name: "apk" in any letter
/// case, else the full-track marker.
pub open spec fn channel_type_of(name: Seq<char>) -> Option<ChannelType> {
    if starts_with_apk(name) {
        Some(ChannelType::Apk)
    } else if starts_with_text(name, full_track_marker()) {
        Some(ChannelType::FullTrack)
    } else {
        None
    }
}

/// `s` begins with "apk" once ASCII letters are lower-cased.
pub open spec fn starts_with_apk(s: Seq<char>) -> bool {
    &&& s.len() >= 3
    &&& ascii_lower(s[0]) == 'a' as u32
    &&& ascii_lower(s[1]) == 'p' as u32
    &&& ascii_lower(s[2]) == 'k' as u32
}

/// A seat folder's name must be one of four literals, exactly.
pub open spec fn seat_position_of(name: Seq<char>) -> Option<SeatPosition> {
    if name == seq!['主', '驾'] {
        Some(SeatPosition::Driver)
    } else if name == seq!['副', '驾'] {
        Some(SeatPosition::Passenger)
    } else if name == seq!['左', '后'] {
        Some(SeatPosition::RearLeft)
    } else if name == seq!['右', '后'] {
        Some(SeatPosition::RearRight)
    } else {
        None
    }
}

/// The code of `c` with an ASCII capital letter taken to its small letter.
pub open spec fn ascii_lower(c: char) -> u32 {
    if 'A' <= c && c <= 'Z' {
        (c as u32 + 32) as u32
    } else {
        c as u32
    }
}

/// A file is an audio file when its extension, the text after the last dot,
/// is "pcm" once ASCII letters are lower-cased. A dot that starts the name
/// opens no extension, so the last dot must stand after the first character.
pub open spec fn is_audio_name(s: Seq<char>) -> bool {
    &&& s.len() >= 5
    &&& s[s.len() - 4] == '.'
    &&& ascii_lower(s[s.len() - 3]) == 'p' as u32
    &&& ascii_lower(s[s.len() - 2]) == 'c' as u32
    &&& ascii_lower(s[s.len() - 1]) == 'm' as u32
}

/// Whether a name is an audio file name does not depend on the case of its
/// ASCII letters.
pub proof fn audio_name_ignores_ascii_case(a: Seq<char>, b: Seq<char>)
    requires
        a.len() == b.len(),
        forall|i: int| 0 <= i < a.len() ==> #[trigger] ascii_lower(a[i]) == ascii_lower(b[i]),
        forall|i: int| 0 <= i < a.len() ==> (a[i] == '.' <==> b[i] == '.'),
    ensures
        is_audio_name(a) == is_audio_name(b),
{
    if a.len() >= 5 {
        assert(ascii_lower(a[a.len() - 3]) == ascii_lower(b[b.len() - 3]));
        assert(ascii_lower(a[a.len() - 2]) == ascii_lower(b[b.len() - 2]));
        assert(ascii_lower(a[a.len() - 1]) == ascii_lower(b[b.len() - 1]));
        assert(a[a.len() - 4] == '.' <==> b[b.len() - 4] == '.');
    }
}

/// Whether `m` occurs in `s` starting at character `at`.
fn matches_at(s: &str, n: usize, m: &str, k: usize, at: usize) -> (r: bool)
    requires
        n == s@.len(),
        k == m@.len(),
        at + k <= n,
    ensures
        r == (s@.subrange(at as int, at + k) == m@),
{
    let mut j: usize = 0;
    while j < k
        invariant
            n == s@.len(),
            k == m@.len(),
            at + k <= n,
            j <= k,
            forall|t: int| 0 <= t < j ==> s@[at + t] == m@[t],
        decreases k - j,
    {
        if s.get_char(at + j) != m.get_char(j) {
            assert(s@.subrange(at as int, at + k)[j as int] != m@[j as int]);
            return false;
        }
        j = j + 1;
    }
    assert(s@.subrange(at as int, at + k) =~= m@);
    true
}

/// Whether `m` occurs anywhere in `s`.
fn contains_str(s: &str, m: &str) -> (r: bool)
    ensures
        r == contains_text(s@, m@),
{
    let n = s.unicode_len();
    let k = m.unicode_len();
    if k > n {
        return false;
    }
    let last = n - k;
    let mut i: usize = 0;
    loop
        invariant
            n == s@.len(),
            k == m@.len(),
            last == n - k,
            i <= last,
            forall|t: int| 0 <= t < i ==> #[trigger] s@.subrange(t, t + k) != m@,
        decreases last - i,
    {
        if matches_at(s, n, m, k, i) {
            return true;
        }
        if i == last {
            return false;
        }
        i = i + 1;
    }
}

/// Whether `s` and `m` hold the same characters.
pub fn same_text(s: &str, m: &str) -> (r: bool)
    ensures
        r == (s@ == m@),
{
    let n = s.unicode_len();
    let k = m.unicode_len();
    if k != n {
        return false;
    }
    let r = matches_at(s, n, m, k, 0);
    assert(s@ =~= s@.subrange(0, n as int));
    r
}

/// Whether `s` begins with `m`.
fn starts_with_str(s: &str, m: &str) -> (r: bool)
    ensures
        r == starts_with_text(s@, m@),
{
    let n = s.unicode_len();
    let k = m.unicode_len();
    if k > n {
        return false;
    }
    matches_at(s, n, m, k, 0)
}

/// Classifies a talk-type folder name.
pub fn talk_type(name: &String) -> (r: Option<TalkType>)
    ensures
        r == talk_type_of(name@),
{
    proof {
        reveal_strlit("单讲");
        assert("单讲"@ =~= single_marker());
        reveal_strlit("双讲");
        assert("双讲"@ =~= double_marker());
    }
    if contains_str(name.as_str(), "单讲") {
        Some(TalkType::Single)
    } else if contains_str(name.as_str(), "双讲") {
        Some(TalkType::Double)
    } else {
        None
    }
}

/// Reads the dynamic/static marker of a folder name.
pub fn dynamic_static_tag(name: &String) -> (r: DynamicStaticTag)
    ensures
        r == tag_of(name@),
{
    proof {
        reveal_strlit("动态");
        assert("动态"@ =~= dynamic_marker());
        reveal_strlit("静态");
        assert("静态"@ =~= static_marker());
    }
    if contains_str(name.as_str(), "动态") {
        DynamicStaticTag::Dynamic
    } else if contains_str(name.as_str(), "静态") {
        DynamicStaticTag::Static
    } else {
        DynamicStaticTag::Unspecified
    }
}

/// Whether `s` begins with "apk" in any letter case.
fn starts_with_apk_str(s: &str) -> (r: bool)
    ensures
        r == starts_with_apk(s@),
{
    if s.unicode_len() < 3 {
        return false;
    }
    lower_code(s.get_char(0)) == 'a' as u32 && lower_code(s.get_char(1)) == 'p' as u32
        && lower_code(s.get_char(2)) == 'k' as u32
}

/// Classifies a channel folder name.
pub fn channel_type(name: &String) -> (r: Option<ChannelType>)
    ensures
        r == channel_type_of(name@),
{
    proof {
        reveal_strlit("整轨");
        assert("整轨"@ =~= full_track_marker());
    }
    if starts_with_apk_str(name.as_str()) {
        Some(ChannelType::Apk)
    } else if starts_with_str(name.as_str(), "整轨") {
        Some(ChannelType::FullTrack)
    } else {
        None
    }
}

/// Recognises the four seat folder names.
pub fn seat_position(name: &String) -> (r: Option<SeatPosition>)
    ensures
        r == seat_position_of(name@),
{
    proof {
        reveal_strlit("主驾");
        assert("主驾"@ =~= seq!['主', '驾']);
        reveal_strlit("副驾");
        assert("副驾"@ =~= seq!['副', '驾']);
        reveal_strlit("左后");
        assert("左后"@ =~= seq!['左', '后']);
        reveal_strlit("右后");
        assert("右后"@ =~= seq!['右', '后']);
    }
    let s = name.as_str();
    if s.unicode_len() != 2 {
        return None;
    }
    assert(s@ =~= s@.subrange(0, 2));
    if starts_with_str(s, "主驾") {
        Some(SeatPosition::Driver)
    } else if starts_with_str(s, "副驾") {
        Some(SeatPosition::Passenger)
    } else if starts_with_str(s, "左后") {
        Some(SeatPosition::RearLeft)
    } else if starts_with_str(s, "右后") {
        Some(SeatPosition::RearRight)
    } else {
        None
    }
}

fn lower_code(c: char) -> (r: u32)
    ensures
        r == ascii_lower(c),
{
    if 'A' <= c && c <= 'Z' {
        c as u32 + 32
    } else {
        c as u32
    }
}

/// Whether a regular file with this name counts as an audio file.
pub fn is_audio_file_name(name: &String) -> (r: bool)
    ensures
        r == is_audio_name(name@),
{
    let s = name.as_str();
    let n = s.unicode_len();
    if n < 5 {
        return false;
    }
    let dot = s.get_char(n - 4);
    let p = s.get_char(n - 3);
    let c = s.get_char(n - 2);
    let m = s.get_char(n - 1);
    dot == '.' && lower_code(p) == 'p' as u32 && lower_code(c) == 'c' as u32 && lower_code(m)
        == 'm' as u32
}

} // verus!
