//! The names that fields and tools go by are all different.

use vstd::prelude::*;

verus! {

/// How long each of the names is, and enough of its letters to tell it from those of
/// the same length.
pub(crate) proof fn lemma_apart()
    ensures
        "_raw"@.len() == 4 && "_raw"@[0] == '_',
        "accountBalance"@.len() == 14 && "accountBalance"@[0] == 'a',
        "activate"@.len() == 8 && "activate"@[0] == 'a',
        "active"@.len() == 6 && "active"@[1] == 'c',
        "amount"@.len() == 6 && "amount"@[1] == 'm',
        "answer"@.len() == 6 && "answer"@[1] == 'n',
        "apiKey"@.len() == 6 && "apiKey"@[1] == 'p',
        "args"@.len() == 4 && "args"@[0] == 'a' && "args"@[1] == 'r',
        "arguments"@.len() == 9 && "arguments"@[0] == 'a' && "arguments"@[1] == 'r',
        "assistant"@.len() == 9 && "assistant"@[0] == 'a' && "assistant"@[1] == 's',
        "auto"@.len() == 4 && "auto"@[0] == 'a' && "auto"@[1] == 'u',
        "availability"@.len() == 12 && "availability"@[0] == 'a',
        "available"@.len() == 9 && "available"@[1] == 'v',
        "balance"@.len() == 7 && "balance"@[2] == 'l',
        "baseUrl"@.len() == 7 && "baseUrl"@[0] == 'b' && "baseUrl"@[2] == 's',
        "begin"@.len() == 5 && "begin"@[0] == 'b',
        "book_library_seat"@.len() == 17 && "book_library_seat"@[0] == 'b',
        "book_libroom"@.len() == 12 && "book_libroom"@[0] == 'b',
        "bookingIdx"@.len() == 10 && "bookingIdx"@[0] == 'b',
        "budgetLeftUsd"@.len() == 13 && "budgetLeftUsd"@[0] == 'b',
        "budgetUsd"@.len() == 9 && "budgetUsd"@[1] == 'u' && "budgetUsd"@[2] == 'd',
        "building"@.len() == 8 && "building"@[0] == 'b',
        "busyByDay"@.len() == 9 && "busyByDay"@[1] == 'u' && "busyByDay"@[2] == 's',
        "busyPeriods"@.len() == 11 && "busyPeriods"@[0] == 'b',
        "calls"@.len() == 5 && "calls"@[0] == 'c' && "calls"@[1] == 'a',
        "cancel_library_booking"@.len() == 22 && "cancel_library_booking"@[11] == 'a',
        "cancel_libroom_booking"@.len() == 22 && "cancel_libroom_booking"@[11] == 'o',
        "cancelled"@.len() == 9 && "cancelled"@[0] == 'c' && "cancelled"@[1] == 'a',
        "capabilities"@.len() == 12 && "capabilities"@[0] == 'c',
        "capacity"@.len() == 8 && "capacity"@[0] == 'c' && "capacity"@[1] == 'a',
        "card"@.len() == 4 && "card"@[0] == 'c' && "card"@[1] == 'a',
        "cardStatus"@.len() == 10 && "cardStatus"@[0] == 'c' && "cardStatus"@[1] == 'a',
        "channel"@.len() == 7 && "channel"@[0] == 'c' && "channel"@[2] == 'a',
        "chat"@.len() == 4 && "chat"@[0] == 'c' && "chat"@[1] == 'h',
        "choices"@.len() == 7 && "choices"@[0] == 'c' && "choices"@[2] == 'o',
        "classroomStates"@.len() == 15 && "classroomStates"@[0] == 'c',
        "clientInfo"@.len() == 10 && "clientInfo"@[0] == 'c' && "clientInfo"@[1] == 'l',
        "code"@.len() == 4 && "code"@[0] == 'c' && "code"@[1] == 'o',
        "command"@.len() == 7 && "command"@[0] == 'c' && "command"@[2] == 'm',
        "commands"@.len() == 8 && "commands"@[0] == 'c' && "commands"@[1] == 'o',
        "completion"@.len() == 10 && "completion"@[0] == 'c' && "completion"@[1] == 'o',
        "completion_tokens"@.len() == 17 && "completion_tokens"@[0] == 'c',
        "confirm"@.len() == 7 && "confirm"@[2] == 'n' && "confirm"@[3] == 'f',
        "content"@.len() == 7 && "content"@[2] == 'n' && "content"@[3] == 't',
        "costUsd"@.len() == 7 && "costUsd"@[0] == 'c' && "costUsd"@[2] == 's',
        "count"@.len() == 5 && "count"@[0] == 'c' && "count"@[1] == 'o',
        "data"@.len() == 4 && "data"@[0] == 'd' && "data"@[3] == 'a',
        "date"@.len() == 4 && "date"@[0] == 'd' && "date"@[3] == 'e',
        "dateChoice"@.len() == 10 && "dateChoice"@[0] == 'd' && "dateChoice"@[1] == 'a',
        "day"@.len() == 3 && "day"@[0] == 'd',
        "delId"@.len() == 5 && "delId"@[0] == 'd' && "delId"@[3] == 'I',
        "delete_session"@.len() == 14 && "delete_session"@[0] == 'd',
        "delta"@.len() == 5 && "delta"@[0] == 'd' && "delta"@[3] == 't',
        "department"@.len() == 10 && "department"@[0] == 'd' && "department"@[1] == 'e',
        "description"@.len() == 11 && "description"@[0] == 'd',
        "devName"@.len() == 7 && "devName"@[2] == 'v',
        "dispose"@.len() == 7 && "dispose"@[0] == 'd' && "dispose"@[2] == 's',
        "dock"@.len() == 4 && "dock"@[0] == 'd' && "dock"@[3] == 'k',
        "dorm"@.len() == 4 && "dorm"@[0] == 'd' && "dorm"@[3] == 'm',
        "email"@.len() == 5 && "email"@[0] == 'e' && "email"@[1] == 'm',
        "end"@.len() == 3 && "end"@[0] == 'e' && "end"@[2] == 'd',
        "env"@.len() == 3 && "env"@[0] == 'e' && "env"@[2] == 'v',
        "error"@.len() == 5 && "error"@[0] == 'e' && "error"@[1] == 'r',
        "estTokens"@.len() == 9 && "estTokens"@[0] == 'e' && "estTokens"@[1] == 's',
        "executed"@.len() == 8 && "executed"@[0] == 'e',
        "export"@.len() == 6 && "export"@[1] == 'x',
        "export_session"@.len() == 14 && "export_session"@[0] == 'e',
        "floor"@.len() == 5 && "floor"@[0] == 'f',
        "floorIdx"@.len() == 8 && "floorIdx"@[0] == 'f' && "floorIdx"@[1] == 'l',
        "floors"@.len() == 6 && "floors"@[1] == 'l',
        "freeNote"@.len() == 8 && "freeNote"@[0] == 'f' && "freeNote"@[1] == 'r',
        "freePreview"@.len() == 11 && "freePreview"@[0] == 'f',
        "function"@.len() == 8 && "function"@[0] == 'f' && "function"@[1] == 'u',
        "hasPower"@.len() == 8 && "hasPower"@[0] == 'h',
        "hint"@.len() == 4 && "hint"@[0] == 'h',
        "id"@.len() == 2 && "id"@[0] == 'i',
        "import_session"@.len() == 14 && "import_session"@[0] == 'i',
        "include_usage"@.len() == 13 && "include_usage"@[0] == 'i',
        "index"@.len() == 5 && "index"@[0] == 'i' && "index"@[2] == 'd',
        "info"@.len() == 4 && "info"@[0] == 'i',
        "input"@.len() == 5 && "input"@[0] == 'i' && "input"@[2] == 'p',
        "inputLabel"@.len() == 10 && "inputLabel"@[0] == 'i',
        "inputPlaceholder"@.len() == 16,
        "inputSchema"@.len() == 11 && "inputSchema"@[0] == 'i' && "inputSchema"@[2] == 'p',
        "integer"@.len() == 7 && "integer"@[0] == 'i' && "integer"@[2] == 't',
        "interrupt"@.len() == 9 && "interrupt"@[1] == 'n',
        "interrupted"@.len() == 11 && "interrupted"@[0] == 'i' && "interrupted"@[2] == 't',
        "isError"@.len() == 7 && "isError"@[2] == 'E',
        "items"@.len() == 5 && "items"@[0] == 'i' && "items"@[2] == 'e',
        "json"@.len() == 4 && "json"@[0] == 'j',
        "jsonrpc"@.len() == 7 && "jsonrpc"@[0] == 'j' && "jsonrpc"@[2] == 'o',
        "keyword"@.len() == 7 && "keyword"@[0] == 'k' && "keyword"@[2] == 'y',
        "kind"@.len() == 4 && "kind"@[0] == 'k',
        "kindId"@.len() == 6 && "kindId"@[0] == 'k' && "kindId"@[1] == 'i',
        "kindIdx"@.len() == 7 && "kindIdx"@[2] == 'n' && "kindIdx"@[3] == 'd',
        "kindName"@.len() == 8 && "kindName"@[0] == 'k',
        "kinds"@.len() == 5 && "kinds"@[0] == 'k',
        "label"@.len() == 5 && "label"@[0] == 'l' && "label"@[1] == 'a',
        "libIdx"@.len() == 6 && "libIdx"@[0] == 'l' && "libIdx"@[1] == 'i',
        "libraries"@.len() == 9 && "libraries"@[0] == 'l' && "libraries"@[1] == 'i',
        "library"@.len() == 7 && "library"@[2] == 'b' && "library"@[4] == 'a',
        "libroom"@.len() == 7 && "libroom"@[2] == 'b' && "libroom"@[4] == 'o',
        "limit"@.len() == 5 && "limit"@[0] == 'l' && "limit"@[1] == 'i',
        "list_sessions"@.len() == 13 && "list_sessions"@[0] == 'l',
        "log"@.len() == 3 && "log"@[0] == 'l',
        "major"@.len() == 5 && "major"@[0] == 'm' && "major"@[1] == 'a',
        "maxMinute"@.len() == 9 && "maxMinute"@[0] == 'm' && "maxMinute"@[1] == 'a',
        "members"@.len() == 7 && "members"@[0] == 'm' && "members"@[2] == 'm',
        "message"@.len() == 7 && "message"@[0] == 'm' && "message"@[2] == 's',
        "messages"@.len() == 8 && "messages"@[0] == 'm',
        "method"@.len() == 6 && "method"@[0] == 'm' && "method"@[1] == 'e',
        "minimum"@.len() == 7 && "minimum"@[2] == 'n' && "minimum"@[3] == 'i',
        "model"@.len() == 5 && "model"@[0] == 'm' && "model"@[1] == 'o',
        "msg"@.len() == 3 && "msg"@[0] == 'm',
        "my_library_bookings"@.len() == 19 && "my_library_bookings"@[7] == 'a',
        "my_libroom_bookings"@.len() == 19 && "my_libroom_bookings"@[7] == 'o',
        "name"@.len() == 4 && "name"@[0] == 'n' && "name"@[1] == 'a',
        "navigate"@.len() == 8 && "navigate"@[0] == 'n',
        "navigated"@.len() == 9 && "navigated"@[0] == 'n' && "navigated"@[1] == 'a',
        "netAmount"@.len() == 9 && "netAmount"@[0] == 'n' && "netAmount"@[1] == 'e',
        "network"@.len() == 7 && "network"@[0] == 'n' && "network"@[2] == 't',
        "new_session"@.len() == 11 && "new_session"@[0] == 'n',
        "news_id"@.len() == 7 && "news_id"@[2] == 'w',
        "note"@.len() == 4 && "note"@[0] == 'n' && "note"@[1] == 'o',
        "notify"@.len() == 6 && "notify"@[0] == 'n' && "notify"@[1] == 'o',
        "ns"@.len() == 2 && "ns"@[0] == 'n',
        "object"@.len() == 6 && "object"@[1] == 'b',
        "ok"@.len() == 2 && "ok"@[0] == 'o',
        "onlineDevices"@.len() == 13 && "onlineDevices"@[0] == 'o',
        "page"@.len() == 4 && "page"@[0] == 'p' && "page"@[2] == 'g',
        "parameters"@.len() == 10 && "parameters"@[0] == 'p' && "parameters"@[1] == 'a',
        "params"@.len() == 6 && "params"@[1] == 'a',
        "pass"@.len() == 4 && "pass"@[0] == 'p' && "pass"@[2] == 's',
        "payload"@.len() == 7 && "payload"@[0] == 'p' && "payload"@[2] == 'y',
        "pos"@.len() == 3 && "pos"@[0] == 'p',
        "previewNote"@.len() == 11 && "previewNote"@[0] == 'p' && "previewNote"@[2] == 'e',
        "productName"@.len() == 11 && "productName"@[0] == 'p' && "productName"@[2] == 'o',
        "prompt"@.len() == 6 && "prompt"@[1] == 'r',
        "prompt_tokens"@.len() == 13 && "prompt_tokens"@[0] == 'p',
        "properties"@.len() == 10 && "properties"@[0] == 'p' && "properties"@[1] == 'r',
        "protocolVersion"@.len() == 15 && "protocolVersion"@[0] == 'p',
        "query_calendar"@.len() == 14 && "query_calendar"@[0] == 'q' && "query_calendar"@[6] == 'c',
        "query_card_balance"@.len() == 18,
        "query_card_transactions"@.len() == 23,
        "query_deadlines"@.len() == 15 && "query_deadlines"@[0] == 'q',
        "query_dorm_ele_records"@.len() == 22 && "query_dorm_ele_records"@[11] == 'e',
        "query_empty_classrooms"@.len() == 22 && "query_empty_classrooms"@[11] == '_',
        "query_exams"@.len() == 11 && "query_exams"@[0] == 'q',
        "query_grades"@.len() == 12 && "query_grades"@[0] == 'q',
        "query_library"@.len() == 13 && "query_library"@[0] == 'q' && "query_library"@[6] == 'l',
        "query_library_seats"@.len() == 19 && "query_library_seats"@[7] == 'i',
        "query_librooms"@.len() == 14 && "query_librooms"@[0] == 'q' && "query_librooms"@[6] == 'l',
        "query_network"@.len() == 13 && "query_network"@[0] == 'q' && "query_network"@[6] == 'n',
        "query_news"@.len() == 10 && "query_news"@[0] == 'q',
        "query_profile"@.len() == 13 && "query_profile"@[0] == 'q' && "query_profile"@[6] == 'p',
        "query_schedule"@.len() == 14 && "query_schedule"@[0] == 'q' && "query_schedule"@[6] == 's',
        "query_subscribed_news"@.len() == 21,
        "read_news_article"@.len() == 17 && "read_news_article"@[0] == 'r'
            && "read_news_article"@[3] == 'd',
        "reasoning_content"@.len() == 17 && "reasoning_content"@[0] == 'r'
            && "reasoning_content"@[3] == 's',
        "recordIdx"@.len() == 9 && "recordIdx"@[0] == 'r' && "recordIdx"@[1] == 'e',
        "required"@.len() == 8 && "required"@[0] == 'r' && "required"@[1] == 'e',
        "result"@.len() == 6 && "result"@[0] == 'r' && "result"@[1] == 'e',
        "results"@.len() == 7 && "results"@[0] == 'r' && "results"@[2] == 's',
        "role"@.len() == 4 && "role"@[0] == 'r' && "role"@[2] == 'l',
        "room"@.len() == 4 && "room"@[0] == 'r' && "room"@[2] == 'o',
        "roomIdx"@.len() == 7 && "roomIdx"@[0] == 'r' && "roomIdx"@[2] == 'o',
        "roomName"@.len() == 8 && "roomName"@[0] == 'r' && "roomName"@[1] == 'o',
        "rooms"@.len() == 5 && "rooms"@[0] == 'r',
        "rows"@.len() == 4 && "rows"@[0] == 'r' && "rows"@[2] == 'w',
        "run"@.len() == 3 && "run"@[0] == 'r',
        "searchName"@.len() == 10 && "searchName"@[0] == 's' && "searchName"@[1] == 'e'
            && "searchName"@[2] == 'a',
        "seat"@.len() == 4 && "seat"@[0] == 's' && "seat"@[2] == 'a',
        "seatIdx"@.len() == 7 && "seatIdx"@[0] == 's' && "seatIdx"@[2] == 'a',
        "section"@.len() == 7 && "section"@[1] == 'e' && "section"@[2] == 'c',
        "sectionIdx"@.len() == 10 && "sectionIdx"@[0] == 's' && "sectionIdx"@[2] == 'c',
        "sections"@.len() == 8 && "sections"@[0] == 's' && "sections"@[2] == 'c',
        "selftest"@.len() == 8 && "selftest"@[0] == 's' && "selftest"@[2] == 'l',
        "sent"@.len() == 4 && "sent"@[0] == 's' && "sent"@[2] == 'n',
        "session"@.len() == 7 && "session"@[0] == 's' && "session"@[2] == 's',
        "sessionCompletion"@.len() == 17 && "sessionCompletion"@[0] == 's',
        "sessionCostUsd"@.len() == 14 && "sessionCostUsd"@[0] == 's' && "sessionCostUsd"@[1] == 'e',
        "sessionId"@.len() == 9 && "sessionId"@[0] == 's' && "sessionId"@[1] == 'e',
        "sessionPrompt"@.len() == 13 && "sessionPrompt"@[0] == 's' && "sessionPrompt"@[7] == 'P',
        "sessionStatus"@.len() == 13 && "sessionStatus"@[0] == 's' && "sessionStatus"@[7] == 'S',
        "sessionUsage"@.len() == 12 && "sessionUsage"@[0] == 's',
        "sessions"@.len() == 8 && "sessions"@[0] == 's' && "sessions"@[2] == 's',
        "source"@.len() == 6 && "source"@[0] == 's' && "source"@[1] == 'o',
        "start"@.len() == 5 && "start"@[0] == 's',
        "starttime"@.len() == 9 && "starttime"@[1] == 't' && "starttime"@[2] == 'a',
        "status"@.len() == 6 && "status"@[1] == 't' && "status"@[2] == 'a',
        "statusName"@.len() == 10 && "statusName"@[0] == 's' && "statusName"@[1] == 't'
            && "statusName"@[2] == 'a',
        "step"@.len() == 4 && "step"@[0] == 's' && "step"@[2] == 'e',
        "stream"@.len() == 6 && "stream"@[1] == 't' && "stream"@[2] == 'r' && "stream"@[3] == 'e',
        "stream_options"@.len() == 14 && "stream_options"@[0] == 's' && "stream_options"@[1] == 't',
        "string"@.len() == 6 && "string"@[1] == 't' && "string"@[2] == 'r' && "string"@[3] == 'i',
        "studentId"@.len() == 9 && "studentId"@[1] == 't' && "studentId"@[2] == 'u',
        "success"@.len() == 7 && "success"@[1] == 'u' && "success"@[2] == 'c',
        "summary"@.len() == 7 && "summary"@[0] == 's' && "summary"@[2] == 'm',
        "switch_session"@.len() == 14 && "switch_session"@[0] == 's' && "switch_session"@[1] == 'w',
        "sys"@.len() == 3 && "sys"@[0] == 's',
        "system"@.len() == 6 && "system"@[1] == 'y',
        "text"@.len() == 4 && "text"@[0] == 't' && "text"@[1] == 'e',
        "thinking"@.len() == 8 && "thinking"@[0] == 't',
        "time"@.len() == 4 && "time"@[0] == 't' && "time"@[1] == 'i',
        "timestamp"@.len() == 9 && "timestamp"@[0] == 't' && "timestamp"@[1] == 'i',
        "title"@.len() == 5 && "title"@[0] == 't' && "title"@[1] == 'i',
        "today"@.len() == 5 && "today"@[0] == 't' && "today"@[1] == 'o' && "today"@[2] == 'd',
        "tool"@.len() == 4 && "tool"@[0] == 't' && "tool"@[1] == 'o',
        "tool_call_id"@.len() == 12 && "tool_call_id"@[0] == 't' && "tool_call_id"@[2] == 'o',
        "tool_calls"@.len() == 10 && "tool_calls"@[0] == 't' && "tool_calls"@[2] == 'o',
        "tool_choice"@.len() == 11 && "tool_choice"@[0] == 't' && "tool_choice"@[2] == 'o',
        "tools"@.len() == 5 && "tools"@[0] == 't' && "tools"@[1] == 'o' && "tools"@[2] == 'o',
        "total"@.len() == 5 && "total"@[0] == 't' && "total"@[1] == 'o' && "total"@[2] == 't',
        "totalCalls"@.len() == 10 && "totalCalls"@[0] == 't' && "totalCalls"@[2] == 't'
            && "totalCalls"@[5] == 'C',
        "totalCompletion"@.len() == 15 && "totalCompletion"@[0] == 't',
        "totalCostUsd"@.len() == 12 && "totalCostUsd"@[0] == 't' && "totalCostUsd"@[2] == 't',
        "totalPrompt"@.len() == 11 && "totalPrompt"@[0] == 't' && "totalPrompt"@[2] == 't',
        "totalUsage"@.len() == 10 && "totalUsage"@[0] == 't' && "totalUsage"@[2] == 't'
            && "totalUsage"@[5] == 'U',
        "totals"@.len() == 6 && "totals"@[0] == 't' && "totals"@[1] == 'o',
        "truncated"@.len() == 9 && "truncated"@[0] == 't' && "truncated"@[1] == 'r',
        "type"@.len() == 4 && "type"@[0] == 't' && "type"@[1] == 'y',
        "ui"@.len() == 2 && "ui"@[0] == 'u',
        "updatedAt"@.len() == 9 && "updatedAt"@[1] == 'p',
        "url"@.len() == 3 && "url"@[0] == 'u',
        "usage"@.len() == 5 && "usage"@[0] == 'u',
        "usage_report"@.len() == 12 && "usage_report"@[0] == 'u',
        "usedBytes"@.len() == 9 && "usedBytes"@[0] == 'u' && "usedBytes"@[1] == 's',
        "user"@.len() == 4 && "user"@[0] == 'u' && "user"@[1] == 's',
        "userName"@.len() == 8 && "userName"@[0] == 'u' && "userName"@[4] == 'N',
        "username"@.len() == 8 && "username"@[0] == 'u' && "username"@[4] == 'n',
        "uuid"@.len() == 4 && "uuid"@[0] == 'u' && "uuid"@[1] == 'u',
        "valid"@.len() == 5 && "valid"@[0] == 'v' && "valid"@[3] == 'i',
        "value"@.len() == 5 && "value"@[0] == 'v' && "value"@[3] == 'u',
        "version"@.len() == 7 && "version"@[2] == 'r',
        "week"@.len() == 4 && "week"@[0] == 'w',
        "weekNumber"@.len() == 10 && "weekNumber"@[0] == 'w',
        "xxid"@.len() == 4 && "xxid"@[0] == 'x',
        "zhName"@.len() == 6 && "zhName"@[1] == 'h',
{
    reveal_strlit("_raw");
    reveal_strlit("accountBalance");
    reveal_strlit("activate");
    reveal_strlit("active");
    reveal_strlit("amount");
    reveal_strlit("answer");
    reveal_strlit("apiKey");
    reveal_strlit("args");
    reveal_strlit("arguments");
    reveal_strlit("assistant");
    reveal_strlit("auto");
    reveal_strlit("availability");
    reveal_strlit("available");
    reveal_strlit("balance");
    reveal_strlit("baseUrl");
    reveal_strlit("begin");
    reveal_strlit("book_library_seat");
    reveal_strlit("book_libroom");
    reveal_strlit("bookingIdx");
    reveal_strlit("budgetLeftUsd");
    reveal_strlit("budgetUsd");
    reveal_strlit("building");
    reveal_strlit("busyByDay");
    reveal_strlit("busyPeriods");
    reveal_strlit("calls");
    reveal_strlit("cancel_library_booking");
    reveal_strlit("cancel_libroom_booking");
    reveal_strlit("cancelled");
    reveal_strlit("capabilities");
    reveal_strlit("capacity");
    reveal_strlit("card");
    reveal_strlit("cardStatus");
    reveal_strlit("channel");
    reveal_strlit("chat");
    reveal_strlit("choices");
    reveal_strlit("classroomStates");
    reveal_strlit("clientInfo");
    reveal_strlit("code");
    reveal_strlit("command");
    reveal_strlit("commands");
    reveal_strlit("completion");
    reveal_strlit("completion_tokens");
    reveal_strlit("confirm");
    reveal_strlit("content");
    reveal_strlit("costUsd");
    reveal_strlit("count");
    reveal_strlit("data");
    reveal_strlit("date");
    reveal_strlit("dateChoice");
    reveal_strlit("day");
    reveal_strlit("delId");
    reveal_strlit("delete_session");
    reveal_strlit("delta");
    reveal_strlit("department");
    reveal_strlit("description");
    reveal_strlit("devName");
    reveal_strlit("dispose");
    reveal_strlit("dock");
    reveal_strlit("dorm");
    reveal_strlit("email");
    reveal_strlit("end");
    reveal_strlit("env");
    reveal_strlit("error");
    reveal_strlit("estTokens");
    reveal_strlit("executed");
    reveal_strlit("export");
    reveal_strlit("export_session");
    reveal_strlit("floor");
    reveal_strlit("floorIdx");
    reveal_strlit("floors");
    reveal_strlit("freeNote");
    reveal_strlit("freePreview");
    reveal_strlit("function");
    reveal_strlit("hasPower");
    reveal_strlit("hint");
    reveal_strlit("id");
    reveal_strlit("import_session");
    reveal_strlit("include_usage");
    reveal_strlit("index");
    reveal_strlit("info");
    reveal_strlit("input");
    reveal_strlit("inputLabel");
    reveal_strlit("inputPlaceholder");
    reveal_strlit("inputSchema");
    reveal_strlit("integer");
    reveal_strlit("interrupt");
    reveal_strlit("interrupted");
    reveal_strlit("isError");
    reveal_strlit("items");
    reveal_strlit("json");
    reveal_strlit("jsonrpc");
    reveal_strlit("keyword");
    reveal_strlit("kind");
    reveal_strlit("kindId");
    reveal_strlit("kindIdx");
    reveal_strlit("kindName");
    reveal_strlit("kinds");
    reveal_strlit("label");
    reveal_strlit("libIdx");
    reveal_strlit("libraries");
    reveal_strlit("library");
    reveal_strlit("libroom");
    reveal_strlit("limit");
    reveal_strlit("list_sessions");
    reveal_strlit("log");
    reveal_strlit("major");
    reveal_strlit("maxMinute");
    reveal_strlit("members");
    reveal_strlit("message");
    reveal_strlit("messages");
    reveal_strlit("method");
    reveal_strlit("minimum");
    reveal_strlit("model");
    reveal_strlit("msg");
    reveal_strlit("my_library_bookings");
    reveal_strlit("my_libroom_bookings");
    reveal_strlit("name");
    reveal_strlit("navigate");
    reveal_strlit("navigated");
    reveal_strlit("netAmount");
    reveal_strlit("network");
    reveal_strlit("new_session");
    reveal_strlit("news_id");
    reveal_strlit("note");
    reveal_strlit("notify");
    reveal_strlit("ns");
    reveal_strlit("object");
    reveal_strlit("ok");
    reveal_strlit("onlineDevices");
    reveal_strlit("page");
    reveal_strlit("parameters");
    reveal_strlit("params");
    reveal_strlit("pass");
    reveal_strlit("payload");
    reveal_strlit("pos");
    reveal_strlit("previewNote");
    reveal_strlit("productName");
    reveal_strlit("prompt");
    reveal_strlit("prompt_tokens");
    reveal_strlit("properties");
    reveal_strlit("protocolVersion");
    reveal_strlit("query_calendar");
    reveal_strlit("query_card_balance");
    reveal_strlit("query_card_transactions");
    reveal_strlit("query_deadlines");
    reveal_strlit("query_dorm_ele_records");
    reveal_strlit("query_empty_classrooms");
    reveal_strlit("query_exams");
    reveal_strlit("query_grades");
    reveal_strlit("query_library");
    reveal_strlit("query_library_seats");
    reveal_strlit("query_librooms");
    reveal_strlit("query_network");
    reveal_strlit("query_news");
    reveal_strlit("query_profile");
    reveal_strlit("query_schedule");
    reveal_strlit("query_subscribed_news");
    reveal_strlit("read_news_article");
    reveal_strlit("reasoning_content");
    reveal_strlit("recordIdx");
    reveal_strlit("required");
    reveal_strlit("result");
    reveal_strlit("results");
    reveal_strlit("role");
    reveal_strlit("room");
    reveal_strlit("roomIdx");
    reveal_strlit("roomName");
    reveal_strlit("rooms");
    reveal_strlit("rows");
    reveal_strlit("run");
    reveal_strlit("searchName");
    reveal_strlit("seat");
    reveal_strlit("seatIdx");
    reveal_strlit("section");
    reveal_strlit("sectionIdx");
    reveal_strlit("sections");
    reveal_strlit("selftest");
    reveal_strlit("sent");
    reveal_strlit("session");
    reveal_strlit("sessionCompletion");
    reveal_strlit("sessionCostUsd");
    reveal_strlit("sessionId");
    reveal_strlit("sessionPrompt");
    reveal_strlit("sessionStatus");
    reveal_strlit("sessionUsage");
    reveal_strlit("sessions");
    reveal_strlit("source");
    reveal_strlit("start");
    reveal_strlit("starttime");
    reveal_strlit("status");
    reveal_strlit("statusName");
    reveal_strlit("step");
    reveal_strlit("stream");
    reveal_strlit("stream_options");
    reveal_strlit("string");
    reveal_strlit("studentId");
    reveal_strlit("success");
    reveal_strlit("summary");
    reveal_strlit("switch_session");
    reveal_strlit("sys");
    reveal_strlit("system");
    reveal_strlit("text");
    reveal_strlit("thinking");
    reveal_strlit("time");
    reveal_strlit("timestamp");
    reveal_strlit("title");
    reveal_strlit("today");
    reveal_strlit("tool");
    reveal_strlit("tool_call_id");
    reveal_strlit("tool_calls");
    reveal_strlit("tool_choice");
    reveal_strlit("tools");
    reveal_strlit("total");
    reveal_strlit("totalCalls");
    reveal_strlit("totalCompletion");
    reveal_strlit("totalCostUsd");
    reveal_strlit("totalPrompt");
    reveal_strlit("totalUsage");
    reveal_strlit("totals");
    reveal_strlit("truncated");
    reveal_strlit("type");
    reveal_strlit("ui");
    reveal_strlit("updatedAt");
    reveal_strlit("url");
    reveal_strlit("usage");
    reveal_strlit("usage_report");
    reveal_strlit("usedBytes");
    reveal_strlit("user");
    reveal_strlit("userName");
    reveal_strlit("username");
    reveal_strlit("uuid");
    reveal_strlit("valid");
    reveal_strlit("value");
    reveal_strlit("version");
    reveal_strlit("week");
    reveal_strlit("weekNumber");
    reveal_strlit("xxid");
    reveal_strlit("zhName");
}

} // verus!
