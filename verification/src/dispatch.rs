//! The tool dispatcher: how what a tool gave, or the error with which it
//! failed, becomes the result that the conversation takes. An error of a
//! tool never ends the conversation; it is told to the model.

use vstd::prelude::*;
use crate::dice::{dice_error_text, parse_notation, roll_dice, roll_report, sum, valid_rolls};
use crate::image_fetch::{image_error_text, ImageError, ImageErrorView};
use crate::tools::{ToolResult, ToolResultView};
use crate::webpage::{webpage_error_text, WebpageError, WebpageErrorView};

verus! {

/// Runs the dice tool. A notation that is not taken gives the text of its
/// error; any other gives the report of a roll that answers it.
pub fn run_dice_tool(dice_notation: &str) -> (r: ToolResult)
    ensures
        match parse_notation(dice_notation@) {
            Err(e) => r@ == ToolResultView::Error(dice_error_text(e, dice_notation@)),
            Ok(n) => exists|rolls: Seq<u32>|
                #![trigger valid_rolls(rolls, n)]
                valid_rolls(rolls, n) && r@ == ToolResultView::Text(
                    roll_report(dice_notation@, rolls, n.modifier as int, sum(rolls) + n.modifier),
                ),
        },
{
    match roll_dice(dice_notation) {
        Ok(report) => ToolResult::Text(report),
        Err(e) => ToolResult::Error(e.message(dice_notation)),
    }
}

/// The result of the image tool for what preparing the image gave.
pub open spec fn image_tool_result(
    prepared: Result<(Seq<char>, Seq<char>), ImageErrorView>,
) -> ToolResultView {
    match prepared {
        Ok((mime_type, data)) => ToolResultView::Image { mime_type, data },
        Err(e) => ToolResultView::Error(image_error_text(e)),
    }
}

/// Turns what preparing an image gave into the result of the image tool.
pub fn finish_image_tool(prepared: Result<(String, String), ImageError>) -> (r: ToolResult)
    ensures
        r@ == image_tool_result(
            match prepared {
                Ok((mime_type, data)) => Ok((mime_type@, data@)),
                Err(e) => Err(e@),
            },
        ),
{
    match prepared {
        Ok((mime_type, data)) => ToolResult::Image { mime_type, data },
        Err(e) => ToolResult::Error(e.message()),
    }
}

/// The result of the page tool for what reading the page gave.
pub open spec fn page_tool_result(read: Result<Seq<char>, WebpageErrorView>) -> ToolResultView {
    match read {
        Ok(text) => ToolResultView::Text(text),
        Err(e) => ToolResultView::Error(webpage_error_text(e)),
    }
}

/// Turns what reading a page gave into the result of the page tool.
pub fn finish_page_tool(read: Result<String, WebpageError>) -> (r: ToolResult)
    ensures
        r@ == page_tool_result(
            match read {
                Ok(text) => Ok(text@),
                Err(e) => Err(e@),
            },
        ),
{
    match read {
        Ok(text) => ToolResult::Text(text),
        Err(e) => ToolResult::Error(e.message()),
    }
}

/// The result of a tool for an answer or an error that is text already.
pub open spec fn text_tool_result(outcome: Result<Seq<char>, Seq<char>>) -> ToolResultView {
    match outcome {
        Ok(text) => ToolResultView::Text(text),
        Err(e) => ToolResultView::Error(e),
    }
}

/// Turns an answer or an error that is text already into the result of a
/// tool: what the download tool gave, and what went wrong on the way to a
/// server.
pub fn finish_text_tool(outcome: Result<String, String>) -> (r: ToolResult)
    ensures
        r@ == text_tool_result(
            match outcome {
                Ok(text) => Ok(text@),
                Err(e) => Err(e@),
            },
        ),
{
    match outcome {
        Ok(text) => ToolResult::Text(text),
        Err(e) => ToolResult::Error(e),
    }
}

} // verus!
