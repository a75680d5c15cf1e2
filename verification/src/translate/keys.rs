//! The words of the protocols, told apart.

use vstd::prelude::*;

verus! {

/// The letter at a place of a word, where it has one.
spec fn letter(s: Seq<char>, i: int) -> int {
    if i < s.len() {
        s[i] as int
    } else {
        0
    }
}

/// A number that tells the words of the protocols apart.
#[verifier::opaque]
pub closed spec fn mark(s: Seq<char>) -> int {
    100003 * s.len() + 7 * letter(s, 0) + 131 * letter(s, 1) + 1009 * letter(s, 2) + 17 * letter(s, 9) + 1013 * letter(s, 16) + 10007 * letter(s, s.len() - 1)
}

proof fn lemma_marks_0()
    ensures
        mark("any"@) == 1648034,
        mark("arguments"@) == 2170372,
        mark("assistant"@) == 2192618,
        mark("auto"@) == 1643839,
        mark("base64"@) == 1249810,
        mark("budget_tokens"@) == 2569576,
        mark("cache_control"@) == 2496058,
        mark("cache_creation_input_tokens"@) == 4077256,
        mark("cache_read_input_tokens"@) == 3662100,
        mark("cached_tokens"@) == 2565954,
        mark("call_id"@) == 1823093,
        mark("chat.completion"@) == 2714841,
{
    reveal(mark);
    reveal_strlit("any");
    assert("any"@.len() == 3);
    reveal_strlit("arguments");
    assert("arguments"@.len() == 9);
    reveal_strlit("assistant");
    assert("assistant"@.len() == 9);
    reveal_strlit("auto");
    assert("auto"@.len() == 4);
    reveal_strlit("base64");
    assert("base64"@.len() == 6);
    reveal_strlit("budget_tokens");
    assert("budget_tokens"@.len() == 13);
    reveal_strlit("cache_control");
    assert("cache_control"@.len() == 13);
    reveal_strlit("cache_creation_input_tokens");
    assert("cache_creation_input_tokens"@.len() == 27);
    reveal_strlit("cache_read_input_tokens");
    assert("cache_read_input_tokens"@.len() == 23);
    reveal_strlit("cached_tokens");
    assert("cached_tokens"@.len() == 13);
    reveal_strlit("call_id");
    assert("call_id"@.len() == 7);
    reveal_strlit("chat.completion");
    assert("chat.completion"@.len() == 15);
}

proof fn lemma_marks_1()
    ensures
        mark("chat.completion.chunk"@) == 3385125,
        mark("choices"@) == 1977142,
        mark("code"@) == 1526853,
        mark("completed"@) == 2025942,
        mark("completion_tokens"@) == 3094436,
        mark("content"@) == 1987057,
        mark("content_block"@) == 2498848,
        mark("content_block_delta"@) == 3108200,
        mark("content_block_start"@) == 3287190,
        mark("content_block_stop"@) == 3161341,
        mark("content_index"@) == 2628973,
        mark("context_management"@) == 3200169,
{
    reveal(mark);
    reveal_strlit("chat.completion.chunk");
    assert("chat.completion.chunk"@.len() == 21);
    reveal_strlit("choices");
    assert("choices"@.len() == 7);
    reveal_strlit("code");
    assert("code"@.len() == 4);
    reveal_strlit("completed");
    assert("completed"@.len() == 9);
    reveal_strlit("completion_tokens");
    assert("completion_tokens"@.len() == 17);
    reveal_strlit("content");
    assert("content"@.len() == 7);
    reveal_strlit("content_block");
    assert("content_block"@.len() == 13);
    reveal_strlit("content_block_delta");
    assert("content_block_delta"@.len() == 19);
    reveal_strlit("content_block_start");
    assert("content_block_start"@.len() == 19);
    reveal_strlit("content_block_stop");
    assert("content_block_stop"@.len() == 18);
    reveal_strlit("content_index");
    assert("content_index"@.len() == 13);
    reveal_strlit("context_management");
    assert("context_management"@.len() == 18);
}

proof fn lemma_marks_2()
    ensures
        mark("data"@) == 1501142,
        mark("delta"@) == 1593597,
        mark("description"@) == 2332656,
        mark("developer"@) == 2173818,
        mark("effort"@) == 1877817,
        mark("enabled"@) == 1813711,
        mark("error"@) == 1771480,
        mark("failed"@) == 1720084,
        mark("file_id"@) == 1824162,
        mark("finish_reason"@) == 2527917,
        mark("function"@) == 2027825,
        mark("function_call"@) == 2509509,
{
    reveal(mark);
    reveal_strlit("data");
    assert("data"@.len() == 4);
    reveal_strlit("delta");
    assert("delta"@.len() == 5);
    reveal_strlit("description");
    assert("description"@.len() == 11);
    reveal_strlit("developer");
    assert("developer"@.len() == 9);
    reveal_strlit("effort");
    assert("effort"@.len() == 6);
    reveal_strlit("enabled");
    assert("enabled"@.len() == 7);
    reveal_strlit("error");
    assert("error"@.len() == 5);
    reveal_strlit("failed");
    assert("failed"@.len() == 6);
    reveal_strlit("file_id");
    assert("file_id"@.len() == 7);
    reveal_strlit("finish_reason");
    assert("finish_reason"@.len() == 13);
    reveal_strlit("function");
    assert("function"@.len() == 8);
    reveal_strlit("function_call");
    assert("function_call"@.len() == 13);
}

proof fn lemma_marks_3()
    ensures
        mark("function_call_output"@) == 3407094,
        mark("id"@) == 1214541,
        mark("image"@) == 1623609,
        mark("image_url"@) == 2093670,
        mark("in_progress"@) == 2363793,
        mark("incomplete"@) == 2127490,
        mark("incomplete_details"@) == 3177016,
        mark("index"@) == 1816900,
        mark("input"@) == 1788980,
        mark("input_image"@) == 2240644,
        mark("input_json_delta"@) == 2700750,
        mark("input_schema"@) == 2300585,
{
    reveal(mark);
    reveal_strlit("function_call_output");
    assert("function_call_output"@.len() == 20);
    reveal_strlit("id");
    assert("id"@.len() == 2);
    reveal_strlit("image");
    assert("image"@.len() == 5);
    reveal_strlit("image_url");
    assert("image_url"@.len() == 9);
    reveal_strlit("in_progress");
    assert("in_progress"@.len() == 11);
    reveal_strlit("incomplete");
    assert("incomplete"@.len() == 10);
    reveal_strlit("incomplete_details");
    assert("incomplete_details"@.len() == 18);
    reveal_strlit("index");
    assert("index"@.len() == 5);
    reveal_strlit("input");
    assert("input"@.len() == 5);
    reveal_strlit("input_image");
    assert("input_image"@.len() == 11);
    reveal_strlit("input_json_delta");
    assert("input_json_delta"@.len() == 16);
    reveal_strlit("input_schema");
    assert("input_schema"@.len() == 12);
}

proof fn lemma_marks_4()
    ensures
        mark("input_text"@) == 2290967,
        mark("input_tokens"@) == 2480711,
        mark("input_tokens_details"@) == 3378996,
        mark("instructions"@) == 2483908,
        mark("item"@) == 1608615,
        mark("item_id"@) == 1818561,
        mark("json_object"@) == 2390334,
        mark("json_schema"@) == 2200371,
        mark("length"@) == 1765723,
        mark("logprobs"@) == 2070053,
        mark("max_completion_tokens"@) == 3499578,
        mark("max_output_tokens"@) == 3103873,
{
    reveal(mark);
    reveal_strlit("input_text");
    assert("input_text"@.len() == 10);
    reveal_strlit("input_tokens");
    assert("input_tokens"@.len() == 12);
    reveal_strlit("input_tokens_details");
    assert("input_tokens_details"@.len() == 20);
    reveal_strlit("instructions");
    assert("instructions"@.len() == 12);
    reveal_strlit("item");
    assert("item"@.len() == 4);
    reveal_strlit("item_id");
    assert("item_id"@.len() == 7);
    reveal_strlit("json_object");
    assert("json_object"@.len() == 11);
    reveal_strlit("json_schema");
    assert("json_schema"@.len() == 11);
    reveal_strlit("length");
    assert("length"@.len() == 6);
    reveal_strlit("logprobs");
    assert("logprobs"@.len() == 8);
    reveal_strlit("max_completion_tokens");
    assert("max_completion_tokens"@.len() == 21);
    reveal_strlit("max_output_tokens");
    assert("max_output_tokens"@.len() == 17);
}

proof fn lemma_marks_5()
    ensures
        mark("max_tokens"@) == 2287340,
        mark("media_type"@) == 2127348,
        mark("message"@) == 1840757,
        mark("message_delta"@) == 2402464,
        mark("message_start"@) == 2592852,
        mark("message_stop"@) == 2452821,
        mark("messages"@) == 2080858,
        mark("model"@) == 1696975,
        mark("n"@) == 1201543,
        mark("name"@) == 1534177,
        mark("none"@) == 1537020,
        mark("object"@) == 1881399,
{
    reveal(mark);
    reveal_strlit("max_tokens");
    assert("max_tokens"@.len() == 10);
    reveal_strlit("media_type");
    assert("media_type"@.len() == 10);
    reveal_strlit("message");
    assert("message"@.len() == 7);
    reveal_strlit("message_delta");
    assert("message_delta"@.len() == 13);
    reveal_strlit("message_start");
    assert("message_start"@.len() == 13);
    reveal_strlit("message_stop");
    assert("message_stop"@.len() == 12);
    reveal_strlit("messages");
    assert("messages"@.len() == 8);
    reveal_strlit("model");
    assert("model"@.len() == 5);
    reveal_strlit("n");
    assert("n"@.len() == 1);
    reveal_strlit("name");
    assert("name"@.len() == 4);
    reveal_strlit("none");
    assert("none"@.len() == 4);
    reveal_strlit("object");
    assert("object"@.len() == 6);
}

proof fn lemma_marks_6()
    ensures
        mark("output"@) == 1893978,
        mark("output_config"@) == 2465778,
        mark("output_index"@) == 2535724,
        mark("output_text"@) == 2396033,
        mark("output_tokens"@) == 2585811,
        mark("param"@) == 1719295,
        mark("parameters"@) == 2281307,
        mark("part"@) == 1689341,
        mark("partial_json"@) == 2431278,
        mark("previous_response_id"@) == 3222638,
        mark("prompt_tokens"@) == 2580380,
        mark("prompt_tokens_details"@) == 3497912,
{
    reveal(mark);
    reveal_strlit("output");
    assert("output"@.len() == 6);
    reveal_strlit("output_config");
    assert("output_config"@.len() == 13);
    reveal_strlit("output_index");
    assert("output_index"@.len() == 12);
    reveal_strlit("output_text");
    assert("output_text"@.len() == 11);
    reveal_strlit("output_tokens");
    assert("output_tokens"@.len() == 13);
    reveal_strlit("param");
    assert("param"@.len() == 5);
    reveal_strlit("parameters");
    assert("parameters"@.len() == 10);
    reveal_strlit("part");
    assert("part"@.len() == 4);
    reveal_strlit("partial_json");
    assert("partial_json"@.len() == 12);
    reveal_strlit("previous_response_id");
    assert("previous_response_id"@.len() == 20);
    reveal_strlit("prompt_tokens");
    assert("prompt_tokens"@.len() == 13);
    reveal_strlit("prompt_tokens_details");
    assert("prompt_tokens_details"@.len() == 21);
}

proof fn lemma_marks_7()
    ensures
        mark("properties"@) == 2280507,
        mark("reason"@) == 1812690,
        mark("reasoning"@) == 2042650,
        mark("required"@) == 1928770,
        mark("response"@) == 1940795,
        mark("response.completed"@) == 3034814,
        mark("response.content_part.added"@) == 3928763,
        mark("response.content_part.done"@) == 3838767,
        mark("response.created"@) == 2732495,
        mark("response.failed"@) == 2632543,
        mark("response.function_call_arguments.delta"@) == 5014021,
        mark("response.function_call_arguments.done"@) == 4954046,
{
    reveal(mark);
    reveal_strlit("properties");
    assert("properties"@.len() == 10);
    reveal_strlit("reason");
    assert("reason"@.len() == 6);
    reveal_strlit("reasoning");
    assert("reasoning"@.len() == 9);
    reveal_strlit("required");
    assert("required"@.len() == 8);
    reveal_strlit("response");
    assert("response"@.len() == 8);
    reveal_strlit("response.completed");
    assert("response.completed"@.len() == 18);
    reveal_strlit("response.content_part.added");
    assert("response.content_part.added"@.len() == 27);
    reveal_strlit("response.content_part.done");
    assert("response.content_part.done"@.len() == 26);
    reveal_strlit("response.created");
    assert("response.created"@.len() == 16);
    reveal_strlit("response.failed");
    assert("response.failed"@.len() == 15);
    reveal_strlit("response.function_call_arguments.delta");
    assert("response.function_call_arguments.delta"@.len() == 38);
    reveal_strlit("response.function_call_arguments.done");
    assert("response.function_call_arguments.done"@.len() == 37);
}

proof fn lemma_marks_8()
    ensures
        mark("response.in_progress"@) == 3398196,
        mark("response.output_item.added"@) == 3839094,
        mark("response.output_item.done"@) == 3749098,
        mark("response.output_text.delta"@) == 3820216,
        mark("response.output_text.done"@) == 3760241,
        mark("response_format"@) == 2792655,
        mark("role"@) == 1535030,
        mark("schema"@) == 1689407,
        mark("sequence_number"@) == 2770766,
        mark("signature"@) == 2029221,
        mark("source"@) == 1744124,
        mark("status"@) == 1864697,
{
    reveal(mark);
    reveal_strlit("response.in_progress");
    assert("response.in_progress"@.len() == 20);
    reveal_strlit("response.output_item.added");
    assert("response.output_item.added"@.len() == 26);
    reveal_strlit("response.output_item.done");
    assert("response.output_item.done"@.len() == 25);
    reveal_strlit("response.output_text.delta");
    assert("response.output_text.delta"@.len() == 26);
    reveal_strlit("response.output_text.done");
    assert("response.output_text.done"@.len() == 25);
    reveal_strlit("response_format");
    assert("response_format"@.len() == 15);
    reveal_strlit("role");
    assert("role"@.len() == 4);
    reveal_strlit("schema");
    assert("schema"@.len() == 6);
    reveal_strlit("sequence_number");
    assert("sequence_number"@.len() == 15);
    reveal_strlit("signature");
    assert("signature"@.len() == 9);
    reveal_strlit("source");
    assert("source"@.len() == 6);
    reveal_strlit("status");
    assert("status"@.len() == 6);
}

proof fn lemma_marks_9()
    ensures
        mark("stop"@) == 1648796,
        mark("stop_reason"@) == 2330690,
        mark("stop_sequences"@) == 2680564,
        mark("store"@) == 1638722,
        mark("stream"@) == 1821808,
        mark("system"@) == 1823472,
        mark("temperature"@) == 2236702,
        mark("text"@) == 1695947,
        mark("text_delta"@) == 2107481,
        mark("thinking"@) == 1951126,
        mark("tool"@) == 1608120,
        mark("tool_call_id"@) == 2329703,
{
    reveal(mark);
    reveal_strlit("stop");
    assert("stop"@.len() == 4);
    reveal_strlit("stop_reason");
    assert("stop_reason"@.len() == 11);
    reveal_strlit("stop_sequences");
    assert("stop_sequences"@.len() == 14);
    reveal_strlit("store");
    assert("store"@.len() == 5);
    reveal_strlit("stream");
    assert("stream"@.len() == 6);
    reveal_strlit("system");
    assert("system"@.len() == 6);
    reveal_strlit("temperature");
    assert("temperature"@.len() == 11);
    reveal_strlit("text");
    assert("text"@.len() == 4);
    reveal_strlit("text_delta");
    assert("text_delta"@.len() == 10);
    reveal_strlit("thinking");
    assert("thinking"@.len() == 8);
    reveal_strlit("tool");
    assert("tool"@.len() == 4);
    reveal_strlit("tool_call_id");
    assert("tool_call_id"@.len() == 12);
}

proof fn lemma_marks_10()
    ensures
        mark("tool_calls"@) == 2280142,
        mark("tool_choice"@) == 2239775,
        mark("tool_result"@) == 2390033,
        mark("tool_use"@) == 1938083,
        mark("tool_use_id"@) == 2229870,
        mark("tools"@) == 1778172,
        mark("top_logprobs"@) == 2481089,
        mark("top_p"@) == 1749160,
        mark("total_tokens"@) == 2484955,
        mark("type"@) == 1540390,
        mark("url"@) == 1505490,
        mark("usage"@) == 1624479,
{
    reveal(mark);
    reveal_strlit("tool_calls");
    assert("tool_calls"@.len() == 10);
    reveal_strlit("tool_choice");
    assert("tool_choice"@.len() == 11);
    reveal_strlit("tool_result");
    assert("tool_result"@.len() == 11);
    reveal_strlit("tool_use");
    assert("tool_use"@.len() == 8);
    reveal_strlit("tool_use_id");
    assert("tool_use_id"@.len() == 11);
    reveal_strlit("tools");
    assert("tools"@.len() == 5);
    reveal_strlit("top_logprobs");
    assert("top_logprobs"@.len() == 12);
    reveal_strlit("top_p");
    assert("top_p"@.len() == 5);
    reveal_strlit("total_tokens");
    assert("total_tokens"@.len() == 12);
    reveal_strlit("type");
    assert("type"@.len() == 4);
    reveal_strlit("url");
    assert("url"@.len() == 3);
    reveal_strlit("usage");
    assert("usage"@.len() == 5);
}

proof fn lemma_marks_11()
    ensures
        mark("user"@) == 1658603,
{
    reveal(mark);
    reveal_strlit("user");
    assert("user"@.len() == 4);
}

/// Each word has a number of its own, so no two are the same.
pub proof fn lemma_words()
    ensures
        mark("any"@) == 1648034,
        mark("arguments"@) == 2170372,
        mark("assistant"@) == 2192618,
        mark("auto"@) == 1643839,
        mark("base64"@) == 1249810,
        mark("budget_tokens"@) == 2569576,
        mark("cache_control"@) == 2496058,
        mark("cache_creation_input_tokens"@) == 4077256,
        mark("cache_read_input_tokens"@) == 3662100,
        mark("cached_tokens"@) == 2565954,
        mark("call_id"@) == 1823093,
        mark("chat.completion"@) == 2714841,
        mark("chat.completion.chunk"@) == 3385125,
        mark("choices"@) == 1977142,
        mark("code"@) == 1526853,
        mark("completed"@) == 2025942,
        mark("completion_tokens"@) == 3094436,
        mark("content"@) == 1987057,
        mark("content_block"@) == 2498848,
        mark("content_block_delta"@) == 3108200,
        mark("content_block_start"@) == 3287190,
        mark("content_block_stop"@) == 3161341,
        mark("content_index"@) == 2628973,
        mark("context_management"@) == 3200169,
        mark("data"@) == 1501142,
        mark("delta"@) == 1593597,
        mark("description"@) == 2332656,
        mark("developer"@) == 2173818,
        mark("effort"@) == 1877817,
        mark("enabled"@) == 1813711,
        mark("error"@) == 1771480,
        mark("failed"@) == 1720084,
        mark("file_id"@) == 1824162,
        mark("finish_reason"@) == 2527917,
        mark("function"@) == 2027825,
        mark("function_call"@) == 2509509,
        mark("function_call_output"@) == 3407094,
        mark("id"@) == 1214541,
        mark("image"@) == 1623609,
        mark("image_url"@) == 2093670,
        mark("in_progress"@) == 2363793,
        mark("incomplete"@) == 2127490,
        mark("incomplete_details"@) == 3177016,
        mark("index"@) == 1816900,
        mark("input"@) == 1788980,
        mark("input_image"@) == 2240644,
        mark("input_json_delta"@) == 2700750,
        mark("input_schema"@) == 2300585,
        mark("input_text"@) == 2290967,
        mark("input_tokens"@) == 2480711,
        mark("input_tokens_details"@) == 3378996,
        mark("instructions"@) == 2483908,
        mark("item"@) == 1608615,
        mark("item_id"@) == 1818561,
        mark("json_object"@) == 2390334,
        mark("json_schema"@) == 2200371,
        mark("length"@) == 1765723,
        mark("logprobs"@) == 2070053,
        mark("max_completion_tokens"@) == 3499578,
        mark("max_output_tokens"@) == 3103873,
        mark("max_tokens"@) == 2287340,
        mark("media_type"@) == 2127348,
        mark("message"@) == 1840757,
        mark("message_delta"@) == 2402464,
        mark("message_start"@) == 2592852,
        mark("message_stop"@) == 2452821,
        mark("messages"@) == 2080858,
        mark("model"@) == 1696975,
        mark("n"@) == 1201543,
        mark("name"@) == 1534177,
        mark("none"@) == 1537020,
        mark("object"@) == 1881399,
        mark("output"@) == 1893978,
        mark("output_config"@) == 2465778,
        mark("output_index"@) == 2535724,
        mark("output_text"@) == 2396033,
        mark("output_tokens"@) == 2585811,
        mark("param"@) == 1719295,
        mark("parameters"@) == 2281307,
        mark("part"@) == 1689341,
        mark("partial_json"@) == 2431278,
        mark("previous_response_id"@) == 3222638,
        mark("prompt_tokens"@) == 2580380,
        mark("prompt_tokens_details"@) == 3497912,
        mark("properties"@) == 2280507,
        mark("reason"@) == 1812690,
        mark("reasoning"@) == 2042650,
        mark("required"@) == 1928770,
        mark("response"@) == 1940795,
        mark("response.completed"@) == 3034814,
        mark("response.content_part.added"@) == 3928763,
        mark("response.content_part.done"@) == 3838767,
        mark("response.created"@) == 2732495,
        mark("response.failed"@) == 2632543,
        mark("response.function_call_arguments.delta"@) == 5014021,
        mark("response.function_call_arguments.done"@) == 4954046,
        mark("response.in_progress"@) == 3398196,
        mark("response.output_item.added"@) == 3839094,
        mark("response.output_item.done"@) == 3749098,
        mark("response.output_text.delta"@) == 3820216,
        mark("response.output_text.done"@) == 3760241,
        mark("response_format"@) == 2792655,
        mark("role"@) == 1535030,
        mark("schema"@) == 1689407,
        mark("sequence_number"@) == 2770766,
        mark("signature"@) == 2029221,
        mark("source"@) == 1744124,
        mark("status"@) == 1864697,
        mark("stop"@) == 1648796,
        mark("stop_reason"@) == 2330690,
        mark("stop_sequences"@) == 2680564,
        mark("store"@) == 1638722,
        mark("stream"@) == 1821808,
        mark("system"@) == 1823472,
        mark("temperature"@) == 2236702,
        mark("text"@) == 1695947,
        mark("text_delta"@) == 2107481,
        mark("thinking"@) == 1951126,
        mark("tool"@) == 1608120,
        mark("tool_call_id"@) == 2329703,
        mark("tool_calls"@) == 2280142,
        mark("tool_choice"@) == 2239775,
        mark("tool_result"@) == 2390033,
        mark("tool_use"@) == 1938083,
        mark("tool_use_id"@) == 2229870,
        mark("tools"@) == 1778172,
        mark("top_logprobs"@) == 2481089,
        mark("top_p"@) == 1749160,
        mark("total_tokens"@) == 2484955,
        mark("type"@) == 1540390,
        mark("url"@) == 1505490,
        mark("usage"@) == 1624479,
        mark("user"@) == 1658603,
{
    lemma_marks_0();
    lemma_marks_1();
    lemma_marks_2();
    lemma_marks_3();
    lemma_marks_4();
    lemma_marks_5();
    lemma_marks_6();
    lemma_marks_7();
    lemma_marks_8();
    lemma_marks_9();
    lemma_marks_10();
    lemma_marks_11();
}

} // verus!
