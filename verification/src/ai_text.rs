//! Text helpers around the chat assistant: response cleanup, prompt
//! assembly and parameter completion.

use vstd::prelude::*;

use crate::template::{spec_trim, trim_chars};

verus! {

/// `s` with every non-overlapping occurrence of the non-empty `pat`
/// removed, scanning left to right.
pub open spec fn spec_remove_all(s: Seq<char>, pat: Seq<char>) -> Seq<char>
    recommends
        pat.len() > 0,
    decreases s.len(),
{
    if s.len() < pat.len() || pat.len() == 0 {
        s
    } else if s.take(pat.len() as int) == pat {
        spec_remove_all(s.skip(pat.len() as int), pat)
    } else {
        seq![s[0]] + spec_remove_all(s.drop_first(), pat)
    }
}

/// Whether `pat` stands in `s` at position `i`.
pub open spec fn spec_match_at(s: Seq<char>, pat: Seq<char>, i: int) -> bool {
    0 <= i && i + pat.len() <= s.len() && s.subrange(i, i + pat.len()) == pat
}

/// Whether `pat` stands somewhere in `s`.
pub open spec fn spec_contains(s: Seq<char>, pat: Seq<char>) -> bool {
    exists|i: int| spec_match_at(s, pat, i)
}

/// Whether `pat` stands in `chars` at position `i`.
fn match_at(chars: &Vec<char>, pat: &str, i: usize) -> (r: bool)
    requires
        i <= chars@.len(),
    ensures
        r == spec_match_at(chars@, pat@, i as int),
{
    let n = pat.unicode_len();
    let len = chars.len();
    if n > len - i {
        return false;
    }
    let mut k: usize = 0;
    while k < n
        invariant
            0 <= k <= n,
            n == pat@.len(),
            len == chars@.len(),
            i + n <= len,
            forall|j: int| 0 <= j < k ==> chars@[i + j] == pat@[j],
        decreases n - k,
    {
        if chars[i + k] != pat.get_char(k) {
            proof {
                assert(chars@.subrange(i as int, i + pat@.len())[k as int] != pat@[k as int]);
            }
            return false;
        }
        k += 1;
    }
    proof {
        assert(chars@.subrange(i as int, i + pat@.len()) =~= pat@);
    }
    true
}

/// Removes every non-overlapping occurrence of `pat` from `chars`, scanning
/// left to right.
fn remove_all(chars: &Vec<char>, pat: &str) -> (out: Vec<char>)
    requires
        pat@.len() > 0,
    ensures
        out@ == spec_remove_all(chars@, pat@),
{
    let n = pat.unicode_len();
    let mut out: Vec<char> = Vec::new();
    let mut i: usize = 0;
    proof {
        assert(chars@.skip(0) =~= chars@);
    }
    while i < chars.len()
        invariant
            0 <= i <= chars@.len(),
            n == pat@.len(),
            n > 0,
            spec_remove_all(chars@, pat@) == out@ + spec_remove_all(chars@.skip(i as int), pat@),
        decreases chars@.len() - i,
    {
        let ghost rest = chars@.skip(i as int);
        if match_at(chars, pat, i) {
            proof {
                assert(rest.take(pat@.len() as int) =~= chars@.subrange(i as int, i + pat@.len()));
                assert(rest.skip(pat@.len() as int) =~= chars@.skip(i + pat@.len()));
            }
            i += n;
        } else {
            proof {
                if rest.len() >= pat@.len() {
                    assert(rest.take(pat@.len() as int) =~= chars@.subrange(
                        i as int,
                        i + pat@.len(),
                    ));
                }
                assert(rest[0] == chars@[i as int]);
                assert(rest.drop_first() =~= chars@.skip(i + 1));
            }
            out.push(chars[i]);
            proof {
                assert(out@ + spec_remove_all(chars@.skip(i + 1), pat@) =~= spec_remove_all(
                    chars@,
                    pat@,
                ));
            }
            i += 1;
        }
    }
    proof {
        assert(chars@.skip(chars@.len() as int) =~= Seq::<char>::empty());
        assert(out@ =~= spec_remove_all(chars@, pat@));
    }
    out
}

/// The characters of `s`.
fn str_chars(s: &str) -> (chars: Vec<char>)
    ensures
        chars@ == s@,
{
    let n = s.unicode_len();
    let mut chars: Vec<char> = Vec::new();
    let mut i: usize = 0;
    while i < n
        invariant
            0 <= i <= n,
            n == s@.len(),
            chars@ == s@.take(i as int),
        decreases n - i,
    {
        chars.push(s.get_char(i));
        proof {
            assert(chars@ =~= s@.take(i + 1));
        }
        i += 1;
    }
    proof {
        assert(s@.take(n as int) =~= s@);
    }
    chars
}

/// Parses and assembles text around the chat assistant's responses.
pub struct AIResponseParser;

/// The content with every response marker removed, in the fixed marker
/// order, and surrounding whitespace trimmed.
pub open spec fn spec_clean_response(content: Seq<char>) -> Seq<char> {
    spec_trim(
        spec_remove_all(
            spec_remove_all(
                spec_remove_all(
                    spec_remove_all(
                        spec_remove_all(
                            spec_remove_all(
                                spec_remove_all(
                                    spec_remove_all(content, "[AI_ANSWER]"@),
                                    "[/AI_ANSWER]"@,
                                ),
                                "[AI_QUERY]"@,
                            ),
                            "[/AI_QUERY]"@,
                        ),
                        "[AI_ACTION]"@,
                    ),
                    "[/AI_ACTION]"@,
                ),
                "[AI_NEED_INFO]"@,
            ),
            "[/AI_NEED_INFO]"@,
        ),
    )
}

impl AIResponseParser {
    /// Strips every response marker from the content and trims the result.
    pub fn clean_response(content: &str) -> (r: String)
        ensures
            r@ == spec_clean_response(content@),
    {
        proof {
            reveal_strlit("[AI_ANSWER]");
            reveal_strlit("[/AI_ANSWER]");
            reveal_strlit("[AI_QUERY]");
            reveal_strlit("[/AI_QUERY]");
            reveal_strlit("[AI_ACTION]");
            reveal_strlit("[/AI_ACTION]");
            reveal_strlit("[AI_NEED_INFO]");
            reveal_strlit("[/AI_NEED_INFO]");
        }
        let chars = str_chars(content);
        let chars = remove_all(&chars, "[AI_ANSWER]");
        let chars = remove_all(&chars, "[/AI_ANSWER]");
        let chars = remove_all(&chars, "[AI_QUERY]");
        let chars = remove_all(&chars, "[/AI_QUERY]");
        let chars = remove_all(&chars, "[AI_ACTION]");
        let chars = remove_all(&chars, "[/AI_ACTION]");
        let chars = remove_all(&chars, "[AI_NEED_INFO]");
        let chars = remove_all(&chars, "[/AI_NEED_INFO]");
        let trimmed = trim_chars(&chars);
        crate::text::chars_to_string(&trimmed)
    }
}

/// Builds prompts for the chat assistant.
pub struct SystemPromptTemplate;

impl SystemPromptTemplate {
    /// The prompt handed to the assistant after a data query: the raw result
    /// in a fenced block, the original question, and the fixed analysis
    /// instructions around them.
    pub fn get_data_analysis_prompt(query_result: &str, original_question: &str) -> (r: String)
        ensures
            r@ == "Here is the raw data a database query returned (Markdown):\n\n```\n"@
                + query_result@ + "\n```\n\nThe user's question was: \""@ + original_question@
                + "\"\n\nAnalyse the data and answer the question clearly. Start the answer with the [AI_ANSWER] marker; the data is already permission-checked; summarise and compute where it helps; say so when the data is empty."@,
    {
        String::from_str(
            "Here is the raw data a database query returned (Markdown):\n\n```\n",
        ).concat(query_result).concat("\n```\n\nThe user's question was: \"").concat(
            original_question,
        ).concat(
            "\"\n\nAnalyse the data and answer the question clearly. Start the answer with the [AI_ANSWER] marker; the data is already permission-checked; summarise and compute where it helps; say so when the data is empty.",
        )
    }
}

/// Completes loosely-phrased action parameters.
pub struct ParamAutoCompleter;

/// The canonical attendance status a loose textual status completes to:
/// the first matching keyword decides, then an already-canonical name passes
/// through; anything else completes to nothing.
pub open spec fn spec_complete_attendance_status(s: Seq<char>) -> Option<Seq<char>> {
    if spec_contains(s, "出勤"@) {
        Some("present"@)
    } else if spec_contains(s, "正常"@) {
        Some("present"@)
    } else if spec_contains(s, "到"@) {
        Some("present"@)
    } else if spec_contains(s, "迟到"@) {
        Some("late"@)
    } else if spec_contains(s, "晚"@) {
        Some("late"@)
    } else if spec_contains(s, "缺勤"@) {
        Some("absent"@)
    } else if spec_contains(s, "缺"@) {
        Some("absent"@)
    } else if spec_contains(s, "旷课"@) {
        Some("absent"@)
    } else if spec_contains(s, "早退"@) {
        Some("early_leave"@)
    } else if spec_contains(s, "请假"@) {
        Some("excused"@)
    } else if spec_contains(s, "病假"@) {
        Some("excused"@)
    } else if spec_contains(s, "事假"@) {
        Some("excused"@)
    } else if s == "present"@ || s == "late"@ || s == "absent"@ || s == "early_leave"@ || s
        == "excused"@ {
        Some(s)
    } else {
        None
    }
}

/// Whether the non-empty `pat` stands somewhere in `chars`.
fn contains_pat(chars: &Vec<char>, pat: &str) -> (r: bool)
    requires
        pat@.len() > 0,
    ensures
        r == spec_contains(chars@, pat@),
{
    let len = chars.len();
    let mut i: usize = 0;
    while i < len
        invariant
            0 <= i <= len,
            len == chars@.len(),
            pat@.len() > 0,
            forall|j: int| 0 <= j < i ==> !spec_match_at(chars@, pat@, j),
        decreases len - i,
    {
        if match_at(chars, pat, i) {
            return true;
        }
        i += 1;
    }
    proof {
        assert forall|j: int| !spec_match_at(chars@, pat@, j) by {
            if j >= chars@.len() {
                assert(j + pat@.len() > chars@.len());
            }
        }
    }
    false
}

impl ParamAutoCompleter {
    /// Completes a loosely-phrased attendance status to its canonical name:
    /// the first matching keyword decides, an already-canonical name passes
    /// through, anything else yields nothing.
    pub fn complete_attendance_status(status: &str) -> (r: Option<String>)
        ensures
            match r {
                Some(v) => spec_complete_attendance_status(status@) == Some(v@),
                None => spec_complete_attendance_status(status@) is None,
            },
    {
        proof {
            reveal_strlit("出勤");
            reveal_strlit("正常");
            reveal_strlit("到");
            reveal_strlit("迟到");
            reveal_strlit("晚");
            reveal_strlit("缺勤");
            reveal_strlit("缺");
            reveal_strlit("旷课");
            reveal_strlit("早退");
            reveal_strlit("请假");
            reveal_strlit("病假");
            reveal_strlit("事假");
        }
        let chars = str_chars(status);
        if contains_pat(&chars, "出勤") {
            return Some(String::from_str("present"));
        }
        if contains_pat(&chars, "正常") {
            return Some(String::from_str("present"));
        }
        if contains_pat(&chars, "到") {
            return Some(String::from_str("present"));
        }
        if contains_pat(&chars, "迟到") {
            return Some(String::from_str("late"));
        }
        if contains_pat(&chars, "晚") {
            return Some(String::from_str("late"));
        }
        if contains_pat(&chars, "缺勤") {
            return Some(String::from_str("absent"));
        }
        if contains_pat(&chars, "缺") {
            return Some(String::from_str("absent"));
        }
        if contains_pat(&chars, "旷课") {
            return Some(String::from_str("absent"));
        }
        if contains_pat(&chars, "早退") {
            return Some(String::from_str("early_leave"));
        }
        if contains_pat(&chars, "请假") {
            return Some(String::from_str("excused"));
        }
        if contains_pat(&chars, "病假") {
            return Some(String::from_str("excused"));
        }
        if contains_pat(&chars, "事假") {
            return Some(String::from_str("excused"));
        }
        if crate::text::str_eq(status, "present") || crate::text::str_eq(status, "late")
            || crate::text::str_eq(status, "absent") || crate::text::str_eq(status, "early_leave")
            || crate::text::str_eq(status, "excused") {
            return Some(status.to_owned());
        }
        None
    }
}


/// The joined items with `sep` between them; the empty list joins to the
/// empty string.
pub open spec fn spec_join_with(items: Seq<Seq<char>>, sep: Seq<char>) -> Seq<char>
    decreases items.len(),
{
    if items.len() == 0 {
        Seq::empty()
    } else if items.len() == 1 {
        items[0]
    } else {
        spec_join_with(items.drop_last(), sep) + sep + items.last()
    }
}

/// Joins strings with a separator between them.
fn join_strings(items: &Vec<String>, sep: &str) -> (r: String)
    ensures
        r@ == spec_join_with(items@.map_values(|s: String| s@), sep@),
{
    let ghost views = items@.map_values(|s: String| s@);
    let mut r = String::new();
    proof {
        assert(views.take(0) =~= Seq::<Seq<char>>::empty());
    }
    let mut i: usize = 0;
    while i < items.len()
        invariant
            0 <= i <= items@.len(),
            views == items@.map_values(|s: String| s@),
            views.len() == items@.len(),
            r@ == spec_join_with(views.take(i as int), sep@),
        decreases items@.len() - i,
    {
        proof {
            assert(views.take(i + 1).drop_last() =~= views.take(i as int));
            assert(views.take(i + 1).last() == items@[i as int]@);
        }
        if i > 0 {
            r.append(sep);
        }
        r.append(items[i].as_str());
        i += 1;
    }
    proof {
        assert(views.take(items@.len() as int) =~= views);
    }
    r
}

/// Whether the permission list holds `a` or `b`.
pub open spec fn spec_has_either(perms: Seq<Seq<char>>, a: Seq<char>, b: Seq<char>) -> bool {
    perms.contains(a) || perms.contains(b)
}

/// Whether `list` holds a string equal to `a` or to `b`.
fn has_either(list: &Vec<String>, a: &str, b: &str) -> (r: bool)
    ensures
        r == spec_has_either(list@.map_values(|s: String| s@), a@, b@),
{
    let r = crate::text::string_list_contains(list, a) || crate::text::string_list_contains(
        list,
        b,
    );
    proof {
        let views = list@.map_values(|s: String| s@);
        assert forall|i: int| 0 <= i < list@.len() implies views[i] == (#[trigger] list@[i])@ by {}
        if r {
            let i = choose|i: int|
                0 <= i < list@.len() && ((#[trigger] list@[i])@ == a@ || list@[i]@ == b@);
            assert(views[i] == list@[i]@);
        }
        if views.contains(a@) {
            let i = choose|i: int| 0 <= i < views.len() && views[i] == a@;
            assert(list@[i]@ == a@);
        }
        if views.contains(b@) {
            let i = choose|i: int| 0 <= i < views.len() && views[i] == b@;
            assert(list@[i]@ == b@);
        }
    }
    r
}

/// The action-description blocks the prompt offers, one per action the
/// permission list allows, in the fixed catalog order.
pub open spec fn spec_action_blocks(perms: Seq<Seq<char>>) -> Seq<Seq<char>> {
    let b: Seq<Seq<char>> = Seq::empty();
    let b = if spec_has_either(perms, "notice.create"@, "notice.*"@) {
        b.push(r#"**创建公告** (create_notice)
- 用途：创建新的学校公告
- 参数：title(标题), content(内容), target_type(目标类型: all/class/department/group), target_id(可选), is_important(是否重要)
- 示例：{"action_type": "create_notice", "params": {"title": "期中考试通知", "content": "下周一进行期中考试", "target_type": "all"}, "reason": "发布考试通知"}"#@)
    } else {
        b
    };
    let b = if spec_has_either(perms, "group.create"@, "group.*"@) {
        b.push(r#"**创建小组** (create_group)
- 用途：在指定班级创建新的小组
- 参数：class_id(班级ID或名称), name(小组名称), description(描述,可选)
- 示例：{"action_type": "create_group", "params": {"class_id": "一年级1班", "name": "学习小组1"}, "reason": "创建新学习小组"}"#@)
    } else {
        b
    };
    let b = if spec_has_either(perms, "group.update.score"@, "group.update"@) || perms.contains("group.*"@) {
        b.push(r#"**更新小组积分** (update_group_score)
- 用途：增加或减少小组积分
- 参数：group_id(小组ID或名称), score_change(积分变化,正数增加负数减少), reason(原因)
- 示例：{"action_type": "update_group_score", "params": {"group_id": "香芋组", "score_change": 10, "reason": "课堂表现优秀"}, "reason": "奖励优秀表现"}"#@)
    } else {
        b
    };
    let b = if spec_has_either(perms, "group.update.member"@, "group.update"@) || perms.contains("group.*"@) {
        b.push(r#"**添加小组成员** (add_group_member)
- 用途：向小组添加新成员
- 参数：group_id(小组ID或名称), person_id(人员姓名或ID)
- 示例：{"action_type": "add_group_member", "params": {"group_id": "香芋组", "person_id": "小明"}, "reason": "添加新成员"}"#@).push(r#"**移除小组成员** (remove_group_member)
- 用途：从小组移除成员
- 参数：group_id(小组ID或名称), person_id(人员姓名或ID)
- 示例：{"action_type": "remove_group_member", "params": {"group_id": "香芋组", "person_id": "小明"}, "reason": "移除成员"}"#@)
    } else {
        b
    };
    let b = if spec_has_either(perms, "attendance.create"@, "attendance.*"@) {
        b.push(r#"**创建考勤记录** (create_attendance)
- 用途：为人员创建考勤记录
- 参数：person_id(人员姓名或ID), date(日期,支持:今天/明天/昨天/YYYY-MM-DD), status(状态:出勤/迟到/缺勤/早退/请假或present/late/absent/early_leave/excused), time(时间,支持:现在/上午8点/下午3点/HH:MM), remark(备注,可选)
- 示例：{"action_type": "create_attendance", "params": {"person_id": "小绿", "date": "今天", "status": "出勤", "time": "上午8点"}, "reason": "记录出勤"}"#@)
    } else {
        b
    };
    let b = if spec_has_either(perms, "score.create"@, "score.*"@) {
        b.push(r#"**添加个人积分** (create_score)
- 用途：为人员添加个人表现积分
- 参数：student_id(人员姓名或ID), reason(原因), value(积分值,整数)
- 示例：{"action_type": "create_score", "params": {"student_id": "小绿", "reason": "大扫除优秀", "value": 10}, "reason": "奖励优秀表现"}"#@)
    } else {
        b
    };
    b
}

/// The whole prompt: the fixed template around the joined permission list
/// and the action blocks the permissions allow.
pub open spec fn spec_enhanced_prompt(perms: Seq<Seq<char>>) -> Seq<char> {
    let blocks = spec_action_blocks(perms);
    let actions = if blocks.len() == 0 {
        r#"当前用户没有可执行的操作权限。"#@
    } else {
        spec_join_with(blocks, "\n\n"@)
    };
    r#"你是一个学校管理系统的AI助手。你的任务是帮助用户查询和分析学校数据，并根据用户权限执行相应操作。

## 你的权限
用户拥有以下权限: "#@ + spec_join_with(perms, ", "@) + r#"

## 重要规则

### 1. 数据查询规则
当用户询问需要数据库信息的问题时，你必须使用特定的JSON格式来请求数据。

**格式要求**:
```json
[AI_QUERY]
{
    "query_type": "查询类型",
    "params": {},
    "reason": "查询原因"
}
[/AI_QUERY]
```

**可用的查询类型**:
- `class_list` - 获取所有班级列表
- `class_detail` - 获取班级详情（需要params: {"id": "班级UUID"}）
- `group_list` - 获取所有小组列表
- `group_detail` - 获取小组详情（需要params: {"id": "小组UUID"}）
- `department_list` - 获取所有部门列表
- `department_detail` - 获取部门详情（需要params: {"id": "部门UUID"}）
- `overview` - 获取学校数据概览

### 2. 操作执行规则
当用户要求你执行某个操作时（如创建公告、创建小组等），你必须使用特定的JSON格式来请求执行操作。

**格式要求**:
```json
[AI_ACTION]
{
    "action_type": "操作类型",
    "params": {具体参数},
    "reason": "操作原因"
}
[/AI_ACTION]
```

**你可以执行的操作**:
"#@ + actions
        + r#"

**重要提示**:
- 只有当用户明确要求执行某个操作时，才使用 [AI_ACTION] 格式
- 如果用户没有某个操作的权限，使用 [AI_ANSWER] 回复："抱歉，您没有执行此操作的权限。"
- 执行操作前，确保所有必需参数都已提供，否则询问用户补充
- **名称解析**：你可以直接使用人员姓名、小组名称、班级名称代替UUID，系统会自动解析。例如："小绿"、"香芋组"、"一年级1班"
- **日期自动补全**：可以使用"今天"、"明天"、"昨天"等相对日期，系统会自动转换为标准格式
- **时间自动补全**：可以使用"上午8点"、"下午3点"、"现在"等描述，系统会自动转换
- **考勤状态**：可以使用中文"出勤"、"迟到"、"缺勤"、"早退"、"请假"，系统会自动转换

### 2.1 重名处理规则
当系统返回需要确认的信息时（如找到多个同名人员），表示需要用户选择具体是哪一个：
- 系统会返回候选列表，包含每个人的额外信息（如学号、班级等）
- 你需要将这些选项呈现给用户，让用户选择
- 使用 [AI_NEED_INFO] 格式询问用户具体选择哪一个

### 3. 回答格式规则

**当你需要查询数据时**:
先输出 [AI_QUERY] JSON [/AI_QUERY] 格式的查询请求，系统会自动执行查询并返回结果。

**当你需要执行操作时**:
先输出 [AI_ACTION] JSON [/AI_ACTION] 格式的操作请求，系统会执行操作并返回结果。

**当你直接回答用户时**:
使用 [AI_ANSWER] 标记开始你的回答：
```
[AI_ANSWER]
你的回答内容...
```

**当你需要更多信息时**:
```
[AI_NEED_INFO]
我需要更多信息才能回答你的问题，请提供：...
```

### 4. 示例对话

**示例1 - 查询班级信息**:
用户: "帮我查看所有班级"
AI:
```
[AI_QUERY]
{
    "query_type": "class_list",
    "params": {},
    "reason": "用户请求查看所有班级信息"
}
[/AI_QUERY]
```

**示例2 - 创建公告**:
用户: "帮我创建一个公告，标题是期中考试通知"
AI:
```
[AI_ACTION]
{
    "action_type": "create_notice",
    "params": {"title": "期中考试通知", "content": "下周一进行期中考试，请同学们做好准备。", "target_type": "all"},
    "reason": "用户要求创建期中考试通知公告"
}
[/AI_ACTION]
```

**示例3 - 直接回答**:
用户: "你好"
AI:
```
[AI_ANSWER]
你好！我是学校管理系统的AI助手，可以帮你查询班级、小组、部门等信息，并根据你的权限执行相应操作。请问有什么可以帮你的？
```

### 5. 权限控制
- 你只能查询和执行用户权限范围内的操作
- 如果用户询问或请求执行没有权限的操作，使用 [AI_ANSWER] 标记回复："抱歉，您没有执行此操作的权限。"
- 不要编造数据，所有数据必须通过查询接口获取
- 不要越权执行操作，必须严格遵守权限限制

### 6. 数据分析
当获取到数据后，你应该：
1. 分析数据内容
2. 以清晰、易懂的方式呈现结果
3. 可以适当总结和计算（如平均值、总数等）
4. 使用中文回复用户

现在，请根据以上规则回答用户的问题。"#@
}

impl SystemPromptTemplate {
    /// Builds the assistant's system prompt for one permission list: the
    /// fixed rules, the permissions themselves, and a description of each
    /// action those permissions allow.
    pub fn get_enhanced_prompt(user_permissions: &[String]) -> (r: String)
        ensures
            r@ == spec_enhanced_prompt(user_permissions@.map_values(|s: String| s@)),
    {
        let ghost perms = user_permissions@.map_values(|s: String| s@);
        let mut owned: Vec<String> = Vec::new();
        let mut k: usize = 0;
        proof {
            assert(owned@ =~= user_permissions@.take(0));
        }
        while k < user_permissions.len()
            invariant
                0 <= k <= user_permissions@.len(),
                owned@ == user_permissions@.take(k as int),
            decreases user_permissions@.len() - k,
        {
            owned.push(user_permissions[k].clone());
            proof {
                assert(owned@ =~= user_permissions@.take(k + 1));
            }
            k += 1;
        }
        proof {
            assert(user_permissions@.take(user_permissions@.len() as int) =~= user_permissions@);
        }
        let user_permissions = &owned;
        let permissions_str = join_strings(user_permissions, ", ");
        let mut blocks: Vec<String> = Vec::new();
        proof {
            assert(blocks@.map_values(|s: String| s@) =~= Seq::<Seq<char>>::empty());
        }
        if has_either(user_permissions, "notice.create", "notice.*") {
            blocks.push(String::from_str(r#"**创建公告** (create_notice)
- 用途：创建新的学校公告
- 参数：title(标题), content(内容), target_type(目标类型: all/class/department/group), target_id(可选), is_important(是否重要)
- 示例：{"action_type": "create_notice", "params": {"title": "期中考试通知", "content": "下周一进行期中考试", "target_type": "all"}, "reason": "发布考试通知"}"#));
        }
        if has_either(user_permissions, "group.create", "group.*") {
            blocks.push(String::from_str(r#"**创建小组** (create_group)
- 用途：在指定班级创建新的小组
- 参数：class_id(班级ID或名称), name(小组名称), description(描述,可选)
- 示例：{"action_type": "create_group", "params": {"class_id": "一年级1班", "name": "学习小组1"}, "reason": "创建新学习小组"}"#));
        }
        if has_either(user_permissions, "group.update.score", "group.update")
            || has_either(user_permissions, "group.*", "group.*") {
            blocks.push(String::from_str(r#"**更新小组积分** (update_group_score)
- 用途：增加或减少小组积分
- 参数：group_id(小组ID或名称), score_change(积分变化,正数增加负数减少), reason(原因)
- 示例：{"action_type": "update_group_score", "params": {"group_id": "香芋组", "score_change": 10, "reason": "课堂表现优秀"}, "reason": "奖励优秀表现"}"#));
        }
        if has_either(user_permissions, "group.update.member", "group.update")
            || has_either(user_permissions, "group.*", "group.*") {
            blocks.push(String::from_str(r#"**添加小组成员** (add_group_member)
- 用途：向小组添加新成员
- 参数：group_id(小组ID或名称), person_id(人员姓名或ID)
- 示例：{"action_type": "add_group_member", "params": {"group_id": "香芋组", "person_id": "小明"}, "reason": "添加新成员"}"#));
            blocks.push(String::from_str(r#"**移除小组成员** (remove_group_member)
- 用途：从小组移除成员
- 参数：group_id(小组ID或名称), person_id(人员姓名或ID)
- 示例：{"action_type": "remove_group_member", "params": {"group_id": "香芋组", "person_id": "小明"}, "reason": "移除成员"}"#));
        }
        if has_either(user_permissions, "attendance.create", "attendance.*") {
            blocks.push(String::from_str(r#"**创建考勤记录** (create_attendance)
- 用途：为人员创建考勤记录
- 参数：person_id(人员姓名或ID), date(日期,支持:今天/明天/昨天/YYYY-MM-DD), status(状态:出勤/迟到/缺勤/早退/请假或present/late/absent/early_leave/excused), time(时间,支持:现在/上午8点/下午3点/HH:MM), remark(备注,可选)
- 示例：{"action_type": "create_attendance", "params": {"person_id": "小绿", "date": "今天", "status": "出勤", "time": "上午8点"}, "reason": "记录出勤"}"#));
        }
        if has_either(user_permissions, "score.create", "score.*") {
            blocks.push(String::from_str(r#"**添加个人积分** (create_score)
- 用途：为人员添加个人表现积分
- 参数：student_id(人员姓名或ID), reason(原因), value(积分值,整数)
- 示例：{"action_type": "create_score", "params": {"student_id": "小绿", "reason": "大扫除优秀", "value": 10}, "reason": "奖励优秀表现"}"#));
        }
        proof {
            assert(blocks@.map_values(|s: String| s@) =~= spec_action_blocks(perms));
        }
        let actions_str = if blocks.len() == 0 {
            String::from_str(r#"当前用户没有可执行的操作权限。"#)
        } else {
            join_strings(&blocks, "\n\n")
        };
        String::from_str(r#"你是一个学校管理系统的AI助手。你的任务是帮助用户查询和分析学校数据，并根据用户权限执行相应操作。

## 你的权限
用户拥有以下权限: "#).concat(permissions_str.as_str()).concat(
            r#"

## 重要规则

### 1. 数据查询规则
当用户询问需要数据库信息的问题时，你必须使用特定的JSON格式来请求数据。

**格式要求**:
```json
[AI_QUERY]
{
    "query_type": "查询类型",
    "params": {},
    "reason": "查询原因"
}
[/AI_QUERY]
```

**可用的查询类型**:
- `class_list` - 获取所有班级列表
- `class_detail` - 获取班级详情（需要params: {"id": "班级UUID"}）
- `group_list` - 获取所有小组列表
- `group_detail` - 获取小组详情（需要params: {"id": "小组UUID"}）
- `department_list` - 获取所有部门列表
- `department_detail` - 获取部门详情（需要params: {"id": "部门UUID"}）
- `overview` - 获取学校数据概览

### 2. 操作执行规则
当用户要求你执行某个操作时（如创建公告、创建小组等），你必须使用特定的JSON格式来请求执行操作。

**格式要求**:
```json
[AI_ACTION]
{
    "action_type": "操作类型",
    "params": {具体参数},
    "reason": "操作原因"
}
[/AI_ACTION]
```

**你可以执行的操作**:
"#,
        ).concat(actions_str.as_str()).concat(
            r#"

**重要提示**:
- 只有当用户明确要求执行某个操作时，才使用 [AI_ACTION] 格式
- 如果用户没有某个操作的权限，使用 [AI_ANSWER] 回复："抱歉，您没有执行此操作的权限。"
- 执行操作前，确保所有必需参数都已提供，否则询问用户补充
- **名称解析**：你可以直接使用人员姓名、小组名称、班级名称代替UUID，系统会自动解析。例如："小绿"、"香芋组"、"一年级1班"
- **日期自动补全**：可以使用"今天"、"明天"、"昨天"等相对日期，系统会自动转换为标准格式
- **时间自动补全**：可以使用"上午8点"、"下午3点"、"现在"等描述，系统会自动转换
- **考勤状态**：可以使用中文"出勤"、"迟到"、"缺勤"、"早退"、"请假"，系统会自动转换

### 2.1 重名处理规则
当系统返回需要确认的信息时（如找到多个同名人员），表示需要用户选择具体是哪一个：
- 系统会返回候选列表，包含每个人的额外信息（如学号、班级等）
- 你需要将这些选项呈现给用户，让用户选择
- 使用 [AI_NEED_INFO] 格式询问用户具体选择哪一个

### 3. 回答格式规则

**当你需要查询数据时**:
先输出 [AI_QUERY] JSON [/AI_QUERY] 格式的查询请求，系统会自动执行查询并返回结果。

**当你需要执行操作时**:
先输出 [AI_ACTION] JSON [/AI_ACTION] 格式的操作请求，系统会执行操作并返回结果。

**当你直接回答用户时**:
使用 [AI_ANSWER] 标记开始你的回答：
```
[AI_ANSWER]
你的回答内容...
```

**当你需要更多信息时**:
```
[AI_NEED_INFO]
我需要更多信息才能回答你的问题，请提供：...
```

### 4. 示例对话

**示例1 - 查询班级信息**:
用户: "帮我查看所有班级"
AI:
```
[AI_QUERY]
{
    "query_type": "class_list",
    "params": {},
    "reason": "用户请求查看所有班级信息"
}
[/AI_QUERY]
```

**示例2 - 创建公告**:
用户: "帮我创建一个公告，标题是期中考试通知"
AI:
```
[AI_ACTION]
{
    "action_type": "create_notice",
    "params": {"title": "期中考试通知", "content": "下周一进行期中考试，请同学们做好准备。", "target_type": "all"},
    "reason": "用户要求创建期中考试通知公告"
}
[/AI_ACTION]
```

**示例3 - 直接回答**:
用户: "你好"
AI:
```
[AI_ANSWER]
你好！我是学校管理系统的AI助手，可以帮你查询班级、小组、部门等信息，并根据你的权限执行相应操作。请问有什么可以帮你的？
```

### 5. 权限控制
- 你只能查询和执行用户权限范围内的操作
- 如果用户询问或请求执行没有权限的操作，使用 [AI_ANSWER] 标记回复："抱歉，您没有执行此操作的权限。"
- 不要编造数据，所有数据必须通过查询接口获取
- 不要越权执行操作，必须严格遵守权限限制

### 6. 数据分析
当获取到数据后，你应该：
1. 分析数据内容
2. 以清晰、易懂的方式呈现结果
3. 可以适当总结和计算（如平均值、总数等）
4. 使用中文回复用户

现在，请根据以上规则回答用户的问题。"#,
        )
    }
}

} // verus!
