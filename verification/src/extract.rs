//! Raw battery readings out of the device's diagnostic text.

use crate::pattern::{capture_view, first_capture, pattern_accepted, search_first_capture};
use crate::text::{chars_of, copy_range, lines, parse_u8, parsed_u8, split_lines, starts_with, views};
use vstd::prelude::*;

verus! {

/// Prefix of the line that reports the headset's battery level.
pub const LEVEL_KEY: &'static str = "  level: ";

/// Prefix of a line that names a controller.
pub const HANDLER_KEY: &'static str = "   handler: ";

/// Prefix of a line that reports a controller's battery level.
pub const BATTERY_KEY: &'static str = "   battery: ";

/// Pattern that captures the battery digits following the left controller's handler line.
pub const LEFT_PATTERN: &'static str = "handler: left[.\\s\\S]*?battery: ([0-9]*)";

/// Pattern that captures the battery digits following the right controller's handler line.
pub const RIGHT_PATTERN: &'static str = "handler: right[.\\s\\S]*?battery: ([0-9]*)";

/// One of the two controllers.
#[derive(Clone, Copy, Debug, PartialEq, Eq, Structural)]
pub enum Side {
    Left,
    Right,
}

/// Why no reading could be taken from a dump.
#[derive(Clone, Copy, Debug, PartialEq, Eq, Structural)]
pub enum ExtractError {
    /// No line of the dump begins with the expected prefix.
    NotFound,
    /// The controller's pattern matched nowhere in the dump's marker lines.
    CaptureNotFound(Side),
    /// The text found is not an unsigned 8-bit integer.
    ParseError,
    /// The pattern to search with was not accepted by the pattern engine.
    InvalidPattern,
}

/// Index of the first line that begins with `prefix`, or the number of lines
/// where none does.
pub open spec fn first_with_prefix(ls: Seq<Seq<char>>, prefix: Seq<char>) -> int
    decreases ls.len(),
{
    if ls.len() == 0 || prefix.is_prefix_of(ls[0]) {
        0
    } else {
        1 + first_with_prefix(ls.skip(1), prefix)
    }
}

/// A reading from its text.
pub open spec fn reading_of(digits: Seq<char>) -> Result<u8, ExtractError> {
    match parsed_u8(digits) {
        Some(v) => Ok(v),
        None => Err(ExtractError::ParseError),
    }
}

/// The headset's raw reading: what follows the level prefix on the first
/// line that begins with it.
pub open spec fn headset_reading(dump: Seq<char>) -> Result<u8, ExtractError> {
    let ls = lines(dump);
    let k = first_with_prefix(ls, LEVEL_KEY@);
    if k < 0 || k >= ls.len() {
        Err(ExtractError::NotFound)
    } else {
        reading_of(ls[k].skip(LEVEL_KEY@.len() as int))
    }
}

/// Whether a line names a controller or reports a controller's battery.
pub open spec fn is_marker(line: Seq<char>) -> bool {
    HANDLER_KEY@.is_prefix_of(line) || BATTERY_KEY@.is_prefix_of(line)
}

/// The marker lines among `ls`, in their order.
pub open spec fn marker_lines(ls: Seq<Seq<char>>) -> Seq<Seq<char>>
    decreases ls.len(),
{
    if ls.len() == 0 {
        Seq::empty()
    } else if is_marker(ls.last()) {
        marker_lines(ls.drop_last()).push(ls.last())
    } else {
        marker_lines(ls.drop_last())
    }
}

/// Lines joined into one text, a line feed between each two.
pub open spec fn joined(ls: Seq<Seq<char>>) -> Seq<char>
    decreases ls.len(),
{
    if ls.len() == 0 {
        Seq::empty()
    } else if ls.len() == 1 {
        ls[0]
    } else {
        joined(ls.drop_last()) + seq!['\n'] + ls.last()
    }
}

/// The controller block of a dump: its marker lines, joined.
pub open spec fn controller_block_of(dump: Seq<char>) -> Seq<char> {
    joined(marker_lines(lines(dump)))
}

/// The pattern that finds a controller's battery digits.
pub open spec fn side_pattern(side: Side) -> Seq<char> {
    match side {
        Side::Left => LEFT_PATTERN@,
        Side::Right => RIGHT_PATTERN@,
    }
}

/// A controller's raw reading from what its pattern captured.
pub open spec fn capture_reading(found: Option<Seq<char>>, side: Side) -> Result<u8, ExtractError> {
    match found {
        None => Err(ExtractError::CaptureNotFound(side)),
        Some(digits) => reading_of(digits),
    }
}

/// The raw reading that `pattern` finds for a controller in a block: the
/// number that its first capture denotes.
pub open spec fn pattern_reading(pattern: Seq<char>, block: Seq<char>, side: Side) -> Result<
    u8,
    ExtractError,
> {
    if pattern_accepted(pattern) {
        capture_reading(first_capture(pattern, block), side)
    } else {
        Err(ExtractError::InvalidPattern)
    }
}

/// A controller's raw reading from a controller block: what its own pattern
/// finds there.
pub open spec fn block_reading(block: Seq<char>, side: Side) -> Result<u8, ExtractError> {
    pattern_reading(side_pattern(side), block, side)
}

/// A controller's raw reading from a controller-service dump.
pub open spec fn controller_reading(dump: Seq<char>, side: Side) -> Result<u8, ExtractError> {
    block_reading(controller_block_of(dump), side)
}

/// Both controllers' raw readings from a controller block, left then
/// right; the left one's failure is reported before the right one's.
pub open spec fn block_readings(block: Seq<char>) -> Result<(u8, u8), ExtractError> {
    match block_reading(block, Side::Left) {
        Err(e) => Err(e),
        Ok(left) => match block_reading(block, Side::Right) {
            Err(e) => Err(e),
            Ok(right) => Ok((left, right)),
        },
    }
}

/// Both controllers' raw readings from a controller-service dump.
pub open spec fn controllers_reading(dump: Seq<char>) -> Result<(u8, u8), ExtractError> {
    block_readings(controller_block_of(dump))
}

/// `first_with_prefix` is the first index whose line begins with the prefix.
pub proof fn lemma_first_with_prefix(ls: Seq<Seq<char>>, prefix: Seq<char>, k: int)
    requires
        0 <= k <= ls.len(),
        forall|j: int| 0 <= j < k ==> !prefix.is_prefix_of(#[trigger] ls[j]),
        k == ls.len() || prefix.is_prefix_of(ls[k]),
    ensures
        first_with_prefix(ls, prefix) == k,
    decreases k,
{
    if k > 0 {
        assert(!prefix.is_prefix_of(ls[0]));
        assert forall|j: int| 0 <= j < k - 1 implies !prefix.is_prefix_of(
            #[trigger] ls.skip(1)[j],
        ) by {
            assert(ls.skip(1)[j] == ls[j + 1]);
        }
        lemma_first_with_prefix(ls.skip(1), prefix, k - 1);
    }
}

/// A dump whose first line with the level prefix continues with the text of
/// a number yields that number, wherever in the dump the line stands.
pub proof fn lemma_headset_reads_level_line(dump: Seq<char>, k: int, digits: Seq<char>, level: u8)
    requires
        0 <= k < lines(dump).len(),
        lines(dump)[k] == LEVEL_KEY@ + digits,
        parsed_u8(digits) == Some(level),
        forall|j: int| 0 <= j < k ==> !LEVEL_KEY@.is_prefix_of(#[trigger] lines(dump)[j]),
    ensures
        headset_reading(dump) == Ok::<u8, ExtractError>(level),
{
    let line = lines(dump)[k];
    assert(line.subrange(0, LEVEL_KEY@.len() as int) =~= LEVEL_KEY@);
    assert(line.skip(LEVEL_KEY@.len() as int) =~= digits);
    lemma_first_with_prefix(lines(dump), LEVEL_KEY@, k);
}

/// A dump without a line that begins with the level prefix yields
/// `NotFound`, and only such a dump does.
pub proof fn lemma_headset_not_found(dump: Seq<char>)
    ensures
        headset_reading(dump) == Err::<u8, ExtractError>(ExtractError::NotFound) <==> forall|j: int|
            0 <= j < lines(dump).len() ==> !LEVEL_KEY@.is_prefix_of(#[trigger] lines(dump)[j]),
{
    let ls = lines(dump);
    lemma_first_with_prefix_bounds(ls, LEVEL_KEY@);
}

/// What `first_with_prefix` returns lies within the lines, has the prefix
/// where it is a line, and no earlier line has it.
pub proof fn lemma_first_with_prefix_bounds(ls: Seq<Seq<char>>, prefix: Seq<char>)
    ensures
        0 <= first_with_prefix(ls, prefix) <= ls.len(),
        first_with_prefix(ls, prefix) < ls.len() ==> prefix.is_prefix_of(
            ls[first_with_prefix(ls, prefix)],
        ),
        forall|j: int|
            0 <= j < first_with_prefix(ls, prefix) ==> !prefix.is_prefix_of(#[trigger] ls[j]),
    decreases ls.len(),
{
    if ls.len() == 0 || prefix.is_prefix_of(ls[0]) {
    } else {
        let rest = ls.skip(1);
        lemma_first_with_prefix_bounds(rest, prefix);
        let k = first_with_prefix(rest, prefix);
        if k < rest.len() {
            assert(rest[k] == ls[k + 1]);
        }
        assert forall|j: int| 0 <= j < k + 1 implies !prefix.is_prefix_of(#[trigger] ls[j]) by {
            if j > 0 {
                assert(rest[j - 1] == ls[j]);
            }
        }
    }
}

/// A missing capture is reported under the side whose pattern found
/// nothing: the left side's exactly where the left pattern is accepted and
/// matches nowhere in the block, the right side's exactly where the left
/// reading succeeds and the right pattern is accepted and matches nowhere.
/// Each side's own reading does not depend on the other's.
pub proof fn lemma_missing_capture_names_its_side(dump: Seq<char>)
    ensures
        forall|side: Side, other: Side|
            controller_reading(dump, side) == Err::<u8, ExtractError>(
                ExtractError::CaptureNotFound(other),
            ) ==> other == side,
        controllers_reading(dump) == Err::<(u8, u8), ExtractError>(
            ExtractError::CaptureNotFound(Side::Left),
        ) <==> pattern_accepted(LEFT_PATTERN@) && first_capture(
            LEFT_PATTERN@,
            controller_block_of(dump),
        ) is None,
        controllers_reading(dump) == Err::<(u8, u8), ExtractError>(
            ExtractError::CaptureNotFound(Side::Right),
        ) <==> controller_reading(dump, Side::Left) is Ok && pattern_accepted(RIGHT_PATTERN@)
            && first_capture(RIGHT_PATTERN@, controller_block_of(dump)) is None,
        controllers_reading(dump) is Ok <==> controller_reading(dump, Side::Left) is Ok
            && controller_reading(dump, Side::Right) is Ok,
{
}

/// Reads the headset's raw battery level from a battery dump.
pub fn extract_headset(dump: &str) -> (r: Result<u8, ExtractError>)
    ensures
        r == headset_reading(dump@),
        r == Err::<u8, ExtractError>(ExtractError::NotFound) <==> forall|j: int|
            0 <= j < lines(dump@).len() ==> !LEVEL_KEY@.is_prefix_of(#[trigger] lines(dump@)[j]),
{
    proof {
        lemma_headset_not_found(dump@);
    }
    let text = chars_of(dump);
    let ls = split_lines(&text);
    let key = chars_of(LEVEL_KEY);
    let mut i: usize = 0;
    while i < ls.len()
        invariant
            i <= ls.len(),
            views(ls@) == lines(dump@),
            key@ == LEVEL_KEY@,
            forall|j: int| 0 <= j < i ==> !key@.is_prefix_of(#[trigger] views(ls@)[j]),
        decreases ls.len() - i,
    {
        let line = &ls[i];
        assert(views(ls@)[i as int] == line@);
        if starts_with(line, &key) {
            proof {
                lemma_first_with_prefix(views(ls@), key@, i as int);
            }
            let rest = copy_range(line, key.len(), line.len());
            assert(rest@ =~= line@.skip(key@.len() as int));
            return match parse_u8(&rest) {
                Some(v) => Ok(v),
                None => Err(ExtractError::ParseError),
            };
        }
        i += 1;
    }
    proof {
        lemma_first_with_prefix(views(ls@), key@, ls.len() as int);
    }
    Err(ExtractError::NotFound)
}

/// Appends the characters of `line` to `block`.
fn append_line(block: &mut Vec<char>, line: &Vec<char>)
    ensures
        final(block)@ == old(block)@ + line@,
{
    let mut i: usize = 0;
    assert(block@ =~= old(block)@ + line@.take(0));
    while i < line.len()
        invariant
            i <= line.len(),
            block@ == old(block)@ + line@.take(i as int),
        decreases line.len() - i,
    {
        block.push(line[i]);
        assert(line@.take(i + 1) =~= line@.take(i as int).push(line@[i as int]));
        assert(block@ =~= old(block)@ + line@.take(i + 1));
        i += 1;
    }
    assert(line@.take(line.len() as int) =~= line@);
}

/// The controller block of a controller-service dump: the lines that name a
/// controller or report a controller's battery, in their order, joined by
/// line feeds.
pub fn controller_block(dump: &str) -> (block: Vec<char>)
    ensures
        block@ == controller_block_of(dump@),
{
    let text = chars_of(dump);
    let ls = split_lines(&text);
    let handler = chars_of(HANDLER_KEY);
    let battery = chars_of(BATTERY_KEY);
    let mut block: Vec<char> = Vec::new();
    let mut any: bool = false;
    let mut i: usize = 0;
    assert(views(ls@).take(0) =~= Seq::<Seq<char>>::empty());
    while i < ls.len()
        invariant
            i <= ls.len(),
            handler@ == HANDLER_KEY@,
            battery@ == BATTERY_KEY@,
            any == (marker_lines(views(ls@).take(i as int)).len() > 0),
            block@ == joined(marker_lines(views(ls@).take(i as int))),
        decreases ls.len() - i,
    {
        let line = &ls[i];
        let ghost before = views(ls@).take(i as int);
        let ghost upto = views(ls@).take(i + 1);
        proof {
            assert(upto.drop_last() =~= before);
            assert(upto.last() == line@);
        }
        if starts_with(line, &handler) || starts_with(line, &battery) {
            if any {
                block.push('\n');
            }
            append_line(&mut block, line);
            proof {
                assert(marker_lines(upto).drop_last() =~= marker_lines(before));
                assert(block@ =~= joined(marker_lines(upto)));
            }
            any = true;
        }
        i += 1;
    }
    assert(views(ls@).take(ls.len() as int) =~= views(ls@));
    block
}

/// A controller's raw reading from what its pattern captured in the
/// controller block, `None` standing for no match.
pub fn reading_from_capture(found: Option<Vec<char>>, side: Side) -> (r: Result<u8, ExtractError>)
    ensures
        r == capture_reading(capture_view(found), side),
{
    match found {
        None => Err(ExtractError::CaptureNotFound(side)),
        Some(digits) => match parse_u8(&digits) {
            Some(v) => Ok(v),
            None => Err(ExtractError::ParseError),
        },
    }
}

/// Searches a block with `pattern` and reads what it captured first as a
/// controller's raw battery level.
pub fn read_by_pattern(pattern: &str, block: &Vec<char>, side: Side) -> (r: Result<
    u8,
    ExtractError,
>)
    ensures
        r == pattern_reading(pattern@, block@, side),
{
    match search_first_capture(pattern, block) {
        Ok(found) => reading_from_capture(found, side),
        Err(_) => Err(ExtractError::InvalidPattern),
    }
}

/// Reads one controller's raw battery level from a controller block.
pub fn controller_from_block(block: &Vec<char>, side: Side) -> (r: Result<u8, ExtractError>)
    ensures
        r == block_reading(block@, side),
{
    let pattern = match side {
        Side::Left => LEFT_PATTERN,
        Side::Right => RIGHT_PATTERN,
    };
    read_by_pattern(pattern, block, side)
}

/// Reads one controller's raw battery level from a controller-service dump.
pub fn extract_controller(dump: &str, side: Side) -> (r: Result<u8, ExtractError>)
    ensures
        r == controller_reading(dump@, side),
{
    let block = controller_block(dump);
    controller_from_block(&block, side)
}

/// Reads both controllers' raw battery levels, left then right, from a
/// controller-service dump.
pub fn extract_controllers(dump: &str) -> (r: Result<(u8, u8), ExtractError>)
    ensures
        r == controllers_reading(dump@),
{
    let block = controller_block(dump);
    let left = match controller_from_block(&block, Side::Left) {
        Ok(v) => v,
        Err(e) => {
            return Err(e);
        },
    };
    match controller_from_block(&block, Side::Right) {
        Ok(right) => Ok((left, right)),
        Err(e) => Err(e),
    }
}

} // verus!
