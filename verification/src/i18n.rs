//! Desktop UI localization (Chinese / English).
use vstd::prelude::*;

use crate::text::{
    ascii_lower, chars_of, contains_str, eq_str, spec_ascii_lower, spec_contains,
    spec_starts_with, spec_trim, starts_with_str, str_eq, trim_vec,
};

verus! {

/// Supported UI languages.
#[derive(Debug, Clone, Copy, PartialEq, Eq, Structural)]
pub enum Language {
    /// Simplified Chinese (product default).
    Zh,
    En,
}

impl Default for Language {
    fn default() -> (r: Self)
        ensures
            r == Language::Zh,
    {
        Language::Zh
    }
}

impl Language {
    pub fn code(self) -> (r: &'static str)
        ensures
            r@ == match self {
                Language::Zh => "zh"@,
                Language::En => "en"@,
            },
    {
        match self {
            Language::Zh => "zh",
            Language::En => "en",
        }
    }

    pub fn native_name(self) -> (r: &'static str)
        ensures
            r@ == match self {
                Language::Zh => "中文"@,
                Language::En => "English"@,
            },
    {
        match self {
            Language::Zh => "中文",
            Language::En => "English",
        }
    }

    pub fn all() -> (r: [Self; 2])
        ensures
            r@ == seq![Language::Zh, Language::En],
    {
        let r = [Language::Zh, Language::En];
        assert(r@ =~= seq![Language::Zh, Language::En]);
        r
    }

    /// The language a locale tag names: Chinese for tags starting with `zh`,
    /// mentioning "chinese" or equal to `cn`; English for tags starting with
    /// `en` or mentioning "english" (ASCII case ignored, blanks trimmed).
    pub fn from_tag(tag: &str) -> (r: Option<Language>)
        ensures
            r == spec_from_tag(tag@),
    {
        let t = ascii_lower(&trim_vec(&chars_of(tag)));
        if t.len() == 0 {
            return None;
        }
        if starts_with_str(&t, "zh") || contains_str(&t, "chinese") || eq_str(&t, "cn") {
            return Some(Language::Zh);
        }
        if starts_with_str(&t, "en") || contains_str(&t, "english") {
            return Some(Language::En);
        }
        None
    }
}

/// The locale settings of the environment: `BONY_LANG`, `LANG`, `LC_ALL`
/// and `LC_MESSAGES` (where set, as text), and on Windows the user's UI
/// language id.
#[derive(Debug)]
pub struct LocaleEnv {
    pub bony_lang: Option<String>,
    pub lang: Option<String>,
    pub lc_all: Option<String>,
    pub lc_messages: Option<String>,
    pub ui_langid: Option<u16>,
}

/// The language of a Windows language id: its primary language (the low
/// ten bits) Chinese or English.
pub open spec fn spec_langid_language(langid: u16) -> Option<Language> {
    let primary = langid & 0x3ffu16;
    if primary == 0x04u16 {
        Some(Language::Zh)
    } else if primary == 0x09u16 {
        Some(Language::En)
    } else {
        None
    }
}

pub fn langid_language(langid: u16) -> (r: Option<Language>)
    ensures
        r == spec_langid_language(langid),
{
    let primary = langid & 0x3ff;
    if primary == 0x04 {
        Some(Language::Zh)
    } else if primary == 0x09 {
        Some(Language::En)
    } else {
        None
    }
}

pub open spec fn tag_of(v: Option<String>) -> Option<Language> {
    match v {
        Some(t) => spec_from_tag(t@),
        None => None,
    }
}

/// The language the environment asks for: `BONY_LANG` when set (Chinese if
/// it names neither language), else the first of `LANG`, `LC_ALL`,
/// `LC_MESSAGES` that names one, else the Windows UI language, else
/// Chinese.
pub open spec fn spec_detect(env: LocaleEnv) -> Language {
    if env.bony_lang is Some {
        match tag_of(env.bony_lang) {
            Some(l) => l,
            None => Language::Zh,
        }
    } else if tag_of(env.lang) is Some {
        tag_of(env.lang)->0
    } else if tag_of(env.lc_all) is Some {
        tag_of(env.lc_all)->0
    } else if tag_of(env.lc_messages) is Some {
        tag_of(env.lc_messages)->0
    } else {
        match env.ui_langid {
            Some(id) => match spec_langid_language(id) {
                Some(l) => l,
                None => Language::Zh,
            },
            None => Language::Zh,
        }
    }
}

fn tag_of_exec(v: &Option<String>) -> (r: Option<Language>)
    ensures
        r == tag_of(*v),
{
    match v {
        Some(t) => Language::from_tag(t.as_str()),
        None => None,
    }
}

impl Language {
    /// Best-effort locale detection from the environment; Chinese when
    /// nothing names a language.
    pub fn detect(env: &LocaleEnv) -> (r: Language)
        ensures
            r == spec_detect(*env),
    {
        if env.bony_lang.is_some() {
            return match tag_of_exec(&env.bony_lang) {
                Some(l) => l,
                None => Language::Zh,
            };
        }
        if let Some(l) = tag_of_exec(&env.lang) {
            return l;
        }
        if let Some(l) = tag_of_exec(&env.lc_all) {
            return l;
        }
        if let Some(l) = tag_of_exec(&env.lc_messages) {
            return l;
        }
        match env.ui_langid {
            Some(id) => match langid_language(id) {
                Some(l) => l,
                None => Language::Zh,
            },
            None => Language::Zh,
        }
    }
}

pub open spec fn spec_from_tag(tag: Seq<char>) -> Option<Language> {
    let t = spec_ascii_lower(spec_trim(tag));
    if t.len() == 0 {
        None
    } else if spec_starts_with(t, "zh"@) || spec_contains(t, "chinese"@) || t == "cn"@ {
        Some(Language::Zh)
    } else if spec_starts_with(t, "en"@) || spec_contains(t, "english"@) {
        Some(Language::En)
    } else {
        None
    }
}

/// Saved UI preferences.
#[derive(Debug, Clone, Copy, PartialEq, Eq, Structural)]
pub struct UiPrefs {
    pub language: Language,
}

/// One of two texts by language.
pub fn tr(lang: Language, zh: &'static str, en: &'static str) -> (r: &'static str)
    ensures
        r == match lang {
            Language::Zh => zh,
            Language::En => en,
        },
{
    match lang {
        Language::Zh => zh,
        Language::En => en,
    }
}

/// The message table: key, Chinese text, English text.
pub open spec fn messages() -> Seq<(&'static str, &'static str, &'static str)> {
    seq![
        ("app.name", "Bony Build", "Bony Build"),
        ("menu.file", "文件", "File"),
        ("menu.edit", "编辑", "Edit"),
        ("menu.view", "视图", "View"),
        ("menu.help", "帮助", "Help"),
        ("menu.new_task", "新建对话", "New chat"),
        ("menu.open_project", "打开项目…", "Open project…"),
        ("menu.open_project_short", "打开项目", "Open project"),
        ("menu.quit", "退出", "Quit"),
        ("menu.focus_composer", "聚焦输入框", "Focus input"),
        ("menu.clear_draft", "清空草稿", "Clear draft"),
        ("menu.hide_sidebar", "隐藏侧栏", "Hide sidebar"),
        ("menu.show_sidebar", "显示侧栏", "Show sidebar"),
        ("menu.hide_right", "隐藏右侧栏", "Hide right panel"),
        ("menu.show_right", "显示右侧栏", "Show right panel"),
        ("menu.usage", "使用统计", "Usage"),
        ("menu.plugins", "插件管理", "Plugins"),
        ("menu.about", "关于 Bony Build", "About Bony Build"),
        ("tip.toggle_sidebar", "切换侧栏", "Toggle sidebar"),
        ("tip.back_live", "返回当前会话", "Back to live session"),
        ("tip.forward", "前进", "Forward"),
        ("tip.hide_right", "隐藏右侧栏", "Hide right panel"),
        ("tip.show_right", "显示右侧栏", "Show right panel"),
        ("nav.chat", "聊天", "Chat"),
        ("nav.unity", "Unity 控制", "Unity control"),
        ("nav.scheduled", "已安排", "Scheduled"),
        ("nav.plugins", "插件", "Plugins"),
        ("nav.sites", "站点", "Sites"),
        ("nav.prs", "拉取请求", "Pull requests"),
        ("nav.new_task", "新建对话", "New chat"),
        ("sidebar.filter_tasks", "筛选任务…", "Filter tasks…"),
        ("sidebar.by_project", "项目", "Projects"),
        ("sidebar.no_chats", "暂无对话", "No conversations"),
        ("sidebar.no_history", "还没有对话记录", "No conversations yet"),
        ("sidebar.no_match", "没有匹配的对话", "No matching conversations"),
        ("sidebar.switch_project", "切换到此项目", "Switch to project"),
        ("sidebar.remove_from_list", "从列表移除", "Remove from list"),
        ("sidebar.search", "搜索任务", "Search tasks"),
        ("empty.prompt", "接下来做什么？", "What's next?"),
        ("empty.login", "请先登录或配置 API Key", "Sign in or configure an API key"),
        ("empty.recent", "最近对话", "Recent chats"),
        ("empty.expand_more", "展开更多", "Show more"),
        ("empty.collapse", "收起", "Show less"),
        ("empty.no_recent", "还没有最近对话", "No recent chats yet"),
        ("empty.delete_chat", "删除对话", "Delete chat"),
        ("composer.hint", "随便问…", "Do anything"),
        ("composer.hint_login", "请先登录或配置 API Key…", "Sign in or configure an API key…"),
        ("composer.hint_unity", "描述要对编辑器做的事…", "Describe what to do in the editor…"),
        ("composer.hint_connecting", "正在连接…", "Connecting…"),
        ("composer.hint_history", "要求后续变更（将回到当前会话）…", "Request changes (returns to live session)…"),
        ("composer.send", "发送", "Send"),
        ("composer.stop", "停止", "Stop"),
        ("composer.force_stop", "强制停止", "Force stop"),
        ("composer.send_hint", "发送 · Enter", "Send · Enter"),
        ("composer.need_login", "请先登录或配置 API Key", "Sign in or configure an API key first"),
        ("composer.busy", "正在处理上一轮，请稍候或点停止", "Busy — wait or stop the current turn"),
        ("composer.connecting", "正在连接 agent，连上后即可发送", "Connecting to agent — send when ready"),
        ("composer.empty", "先输入消息，或用 + 添加文件", "Type a message, or use + to attach files"),
        ("composer.cant_send", "暂时无法发送", "Cannot send right now"),
        ("composer.plus_open", "关闭菜单", "Close menu"),
        ("composer.plus_closed", "添加文件或插件", "Add files or plugins"),
        ("composer.processing", "处理中…", "Working…"),
        ("composer.readonly_history", "只读历史 · 发送新消息将回到当前会话", "Read-only history · Sending returns to the live session"),
        ("flow.thought", "思考", "Thinking"),
        ("flow.plan", "计划", "Plan"),
        ("flow.tool", "工具", "Tool"),
        ("flow.plan_pending", "待办", "Pending"),
        ("flow.plan_running", "进行中", "In progress"),
        ("flow.plan_done", "完成", "Done"),
        ("flow.plan_steps", "{} 步", "{} steps"),
        ("plus.add_file", "添加文件", "Add Files"),
        ("plus.add_file_sub", "加入当前对话上下文", "Attach to this conversation"),
        ("plus.menu_title", "添加到对话", "Add to Chat"),
        ("plus.section_plugins", "插件", "Plugins"),
        ("plus.unity", "Unity 控制", "Unity Control"),
        ("plus.unity_on", "此对话已启用", "On for this chat"),
        ("plus.unity_off", "本地 CLI · 不经 Agent", "Local CLI · not via Agent"),
        ("plus.unity_disabled", "去插件页启用", "Enable in Plugins"),
        ("plus.openmontage", "OpenMontage", "OpenMontage"),
        ("plus.openmontage_on", "Skill 已启用", "Skill enabled"),
        ("plus.openmontage_off", "视频管线 · Agent Skill", "Video pipelines · Agent skill"),
        ("plus.openmontage_setup", "需要先安装并启用", "Install & enable first"),
        ("plus.bevy", "Bevy 游戏引擎", "Bevy Engine"),
        ("plus.bevy_on", "Skill 已启用", "Skill enabled"),
        ("plus.bevy_off", "Rust ECS · Agent Skill", "Rust ECS · Agent skill"),
        ("plus.bevy_setup", "需要先创建/选择项目", "Create or pick a project first"),
        ("plus.status_on", "开", "On"),
        ("plus.status_off", "关", "Off"),
        ("plus.status_setup", "设置", "Setup"),
        ("plus.manage", "管理插件…", "Manage Plugins…"),
        ("plus.manage_sub", "安装、配置与文档", "Install, configure, and docs"),
        ("plus.chip_unity_tip", "此对话使用 Unity CLI；点 × 取消", "Unity CLI for this chat · click × to leave"),
        ("plus.chip_om_tip", "OpenMontage Skill 已启用；点 × 关闭", "OpenMontage skill on · click × to disable"),
        ("plus.chip_bevy_tip", "Bevy Skill 已启用；点 × 关闭", "Bevy skill on · click × to disable"),
        ("plus.chip_project_tip", "点击切换项目", "Click to switch project"),
        ("plus.clear_files", "清除文件", "Clear files"),
        ("user.usage", "使用统计", "Usage"),
        ("user.edit_config", "编辑 config.toml", "Edit config.toml"),
        ("user.language", "语言", "Language"),
        ("user.full_control", "完全控制", "Full Control"),
        ("user.full_control_tip", "开启后自动批准工具执行（含终端 / 写文件），可随时关闭", "Auto-approve tool runs (shell, file writes). Turn off anytime."),
        ("user.login", "登录", "Sign in"),
        ("user.relogin", "重新登录", "Sign in again"),
        ("user.open_failed", "无法打开配置", "Could not open config"),
        ("user.local_account", "本机账号", "Local account"),
        ("user.signed_out", "未登录", "Not signed in"),
        ("user.settings_section", "设置", "Settings"),
        ("perm.title", "需要批准", "Approval needed"),
        ("perm.blurb", "助手想执行需要你确认的工具。", "The assistant wants to run a tool that needs your OK."),
        ("perm.full_control", "完全控制（以后不再问）", "Full Control (don't ask again)"),
        ("panel.details", "详情", "Details"),
        ("panel.session", "会话", "Session"),
        ("panel.cwd", "工作目录", "Working directory"),
        ("panel.model", "模型", "Model"),
        ("panel.token", "Token", "Token"),
        ("panel.open_usage", "打开使用统计", "Open usage"),
        ("panel.back_chat", "回到聊天", "Back to chat"),
        ("plugins.title", "插件", "Plugins"),
        ("plugins.blurb", "配置本地扩展。对话输入框点「+」即可挂上或拿掉。", "Configure local extensions. Use + in chat to attach or remove them."),
        ("plugins.tab_plugins", "插件", "Plugins"),
        ("plugins.tab_skills", "Skills", "Skills"),
        ("plugins.skills_title", "Skills", "Skills"),
        ("plugins.skills_blurb", "把能力说明（SKILL.md）挂到对话里，让代理按规范工作。", "Attach SKILL.md playbooks so the agent follows project conventions."),
        ("plugins.search", "搜索…", "Search…"),
        ("plugins.search_skills", "搜索…", "Search…"),
        ("plugins.installed", "已安装", "Installed"),
        ("plugins.featured", "精选", "Featured"),
        ("plugins.cat_gamedev", "游戏开发", "Game Dev"),
        ("plugins.cat_video", "视频", "Video"),
        ("plugins.install", "安装", "Install"),
        ("plugins.configure", "配置", "Configure"),
        ("plugins.refresh", "刷新", "Refresh"),
        ("plugins.no_results", "没有匹配的结果", "No matching results"),
        ("plugins.none_installed", "尚未安装", "Nothing installed yet"),
        ("plugins.back_store", "← 返回商店", "← Back to store"),
        ("plugins.skill_om_title", "OpenMontage Skill", "OpenMontage Skill"),
        ("plugins.skill_om_blurb", "视频流水线导演说明，写入对话可用的 SKILL.md", "Stage-director playbook for video pipelines via SKILL.md"),
        ("plugins.skill_bevy_title", "Bevy Skill", "Bevy Skill"),
        ("plugins.skill_bevy_blurb", "Bevy ECS 编码规范与项目路径，供对话自动引用", "Bevy ECS conventions and project path for chat"),
        ("plugins.skill_path", "SKILL.md", "SKILL.md"),
        ("chip.pick_project", "选择项目", "Choose project"),
        ("chip.pick_project_tip", "新建对话尚未绑定项目，点击选择", "This chat has no project yet — click to choose one"),
        ("chip.switch_project_tip", "点击切换项目", "Click to switch project"),
        ("vcs.working_copy", "工作副本", "Working copy"),
        ("vcs.branch", "分支", "Branch"),
        ("vcs.session_branch", "会话分支", "Session branch"),
        ("vcs.refresh", "刷新", "Refresh"),
        ("vcs.commit", "描述并提交", "Describe & commit"),
        ("vcs.commit_title", "描述变更", "Describe change"),
        ("vcs.commit_hint", "简要说明这次改了什么…", "Briefly describe this change…"),
        ("vcs.commit_need_message", "先填写上方的提交说明", "Enter a commit message above first"),
        ("vcs.restore", "还原", "Restore"),
        ("vcs.restore_confirm_title", "确认还原", "Confirm restore"),
        ("vcs.restore_confirm_body", "将丢弃该文件的本地修改（含暂存区）：", "Discard local edits to this file (including the index):"),
        ("vcs.empty_changes", "工作副本干净，没有未提交变更。", "Working copy is clean."),
        ("vcs.no_repo", "当前工作目录不是 Git 仓库，版本面板不可用。", "This working directory is not a Git repository."),
        ("vcs.empty_diff", "暂无 diff", "No diff"),
        ("vcs.history", "最近历史", "Recent history"),
        ("vcs.empty_history", "还没有提交记录。", "No commits yet."),
        ("vcs.commit_detail", "提交详情", "Commit detail"),
        ("vcs.changes_tab", "变更文件", "Changes"),
        ("vcs.pick_file", "选择左侧文件查看 diff", "Select a file to view its diff"),
        ("vcs.commit_open_tip", "点击查看本次提交的变更文件", "Click to view changed files"),
        ("vcs.close_detail", "关闭", "Close"),
        ("vcs.resize_tip", "拖拽左侧边缘可加宽面板", "Drag the left edge to widen this panel"),
        ("plugins.unity_title", "Unity 控制", "Unity control"),
        ("plugins.unity_blurb", "本地 CLI 驱动编辑器：Pipeline、探测、场景操作", "Local CLI for the editor: Pipeline, probe, scene actions"),
        ("plugins.openmontage_title", "OpenMontage", "OpenMontage"),
        ("plugins.openmontage_blurb", "把 12 条视频流水线接入当前对话，不切换工作区", "Attach 12 video pipelines to this chat without switching workspace"),
        ("plugins.openmontage_path", "安装目录", "Install path"),
        ("plugins.openmontage_change", "更改", "Change"),
        ("plugins.openmontage_install", "安装 OpenMontage", "Install OpenMontage"),
        ("plugins.openmontage_reinstall_deps", "重新安装依赖", "Reinstall deps"),
        ("plugins.openmontage_retry", "重试", "Retry"),
        ("plugins.openmontage_backlot", "打开 Backlot", "Open Backlot"),
        ("plugins.openmontage_prereq", "需要本机已安装 Git、Python 3、Node.js", "Requires Git, Python 3, and Node.js on this machine"),
        ("plugins.openmontage_installing_hint", "安装中请勿关闭应用", "Do not close the app while installing"),
        ("plugins.openmontage_enabled_hint", "对话里提到做视频时，会自动走 OpenMontage 流水线。", "Video requests in chat use OpenMontage pipelines automatically."),
        ("plugins.openmontage_status_ready", "依赖就绪", "Deps ready"),
        ("plugins.openmontage_ready_hint", "依赖已装好。视频任务由本机 CLI 跑——应用会注入预检结果，勿用 python -c。", "Deps installed. Video runs via local CLI — app injects preflight; never python -c."),
        ("plugins.openmontage_status_missing", "未安装", "Not installed"),
        ("plugins.openmontage_status_installing", "安装中…", "Installing…"),
        ("plugins.openmontage_status_failed", "安装失败", "Install failed"),
        ("plugins.openmontage_status_deps", "缺依赖", "Missing deps"),
        ("plugins.enable", "启用", "Enable"),
        ("plugins.status", "状态", "Status"),
        ("plugins.chat_hint", "可在聊天输入旁开启 Unity 模式", "Enable Unity mode next to chat input"),
        ("plugins.open_settings", "设置", "Settings"),
        ("plugins.docs", "说明", "Docs"),
        ("plugins.docs_tip", "查看 /unity 指令与常用说法", "View /unity commands and phrases"),
        ("plugins.use_in_chat", "在聊天中使用", "Use in chat"),
        ("plugins.enabled_hint", "启用后可在聊天里用本地 CLI 控制 Unity。", "When enabled, chat can drive Unity via local CLI."),
        ("plugins.project", "项目", "Project"),
        ("plugins.pick_existing", "选择已有", "Pick existing"),
        ("plugins.bevy_title", "Bevy 游戏引擎", "Bevy game engine"),
        ("plugins.bevy_blurb", "直接写改 ECS 代码，cargo run 看效果（无可视化编辑器）", "Edit ECS code directly; cargo run to preview (no visual editor)"),
        ("plugins.bevy_running", "游戏窗口运行中", "Game window running"),
        ("plugins.bevy_no_rust", "本机未检测到 Rust 工具链（cargo / rustc）", "Rust toolchain not found (cargo / rustc)"),
        ("plugins.bevy_install_rust", "一键安装 Rust", "Install Rust"),
        ("plugins.bevy_install_rust_tip", "应用内运行安装命令并自动重新检测", "Runs the install command in-app and re-detects"),
        ("plugins.bevy_copy", "复制", "Copy"),
        ("plugins.bevy_copied", "安装命令已复制", "Install command copied"),
        ("plugins.bevy_no_project", "还没有 Bevy 项目：新建（依赖 phuhao000/bevy fork），或选择已有。", "No Bevy project yet — create one (phuhao000/bevy fork) or pick an existing folder."),
        ("plugins.bevy_project_name", "项目名", "Project name"),
        ("plugins.bevy_create", "创建新项目", "Create project"),
        ("plugins.bevy_check_tip", "快速语法/类型检查，不生成可执行文件", "Quick typecheck without producing a binary"),
        ("plugins.bevy_run", "运行", "Run"),
        ("plugins.bevy_run_tip", "cargo run（首次编译可能需要几分钟）", "cargo run (first build may take a few minutes)"),
        ("plugins.bevy_stop", "停止", "Stop"),
        ("plugins.bevy_detecting", "检测中…", "Detecting…"),
        ("plugins.bevy_enabled_hint", "对话里写/改 Bevy 时会自动带上这个项目的规范。", "Chat about Bevy will include this project's conventions."),
        ("plugins.more", "更多插件", "More plugins"),
        ("plugins.more_blurb", "后续会在这里扩展更多本地能力。", "More local capabilities will appear here."),
        ("plugins.back", "← 插件", "← Plugins"),
        ("common.cancel", "取消", "Cancel"),
        ("common.close", "关闭", "Close"),
        ("common.delete", "删除记录", "Delete record"),
        ("common.demo_mode", "· 演示模式", "· Demo mode"),
        ("task.rename_hint", "任务名称", "Task name"),
        ("task.delete_note", "不会自动删除 worktree 或其中未提交的修改。", "Does not delete the worktree or uncommitted changes."),
        ("task.delete_blocked", "请先切换到其他任务，并等待当前运行或审批结束。", "Switch tasks first and wait for the current run or approval to finish."),
        ("model.none", "暂无可用模型。可在 config.toml 的 [models] 里配置。", "No models available. Configure [models] in config.toml."),
        ("model.edit_config", "编辑 config.toml", "Edit config.toml"),
        ("about.title", "关于 Bony Build", "About Bony Build"),
        ("about.tagline", "原生桌面 AI 编程助手 · 含 Unity CLI 本地控制", "Native desktop AI coding assistant · local Unity CLI"),
        ("about.version", "版本", "Version"),
        ("about.body", "通过 ACP 驱动本地 grok agent，在仓库工作区里对话、改代码、跑工具。", "Drives a local grok agent over ACP to chat, edit, and run tools in your repo."),
        ("about.unity", "Unity 控制（近期）", "Unity control (recent)"),
        ("about.other", "其它能力", "Other capabilities"),
        ("about.footer", "底层复用 SpaceXAI Grok agent；桌面壳为本产品。", "Agent runtime aligns with xAI Grok; the desktop shell is Bony Build."),
        ("about.u1", "• 侧栏「插件 → Unity 控制」：安装 CLI / Pipeline、绑定工程、按钮操作", "• Sidebar Plugins → Unity: install CLI/Pipeline, bind project, actions"),
        ("about.u2", "• 聊天旁 Unity 芯片或 /unity：探测编辑器、Play、跑循环等", "• Unity chip or /unity in chat: probe editor, Play, loops, etc."),
        ("about.u3", "• 走本机 Unity CLI，不经 Agent，避免 pipeline 安装卡死", "• Uses local Unity CLI (not Agent) to avoid hung pipeline installs"),
        ("about.o1", "• 多供应商 BYOK（Qwen / Kimi / 智谱 / OpenAI 兼容等）", "• Multi-provider BYOK (Qwen / Kimi / Zhipu / OpenAI-compatible)"),
        ("about.o2", "• 项目与任务：可选隔离 Git worktree，按任务控制权限", "• Projects & tasks: optional Git worktrees, per-task permissions"),
        ("about.o3", "• 工具卡片、模型切换、使用量统计与多语言界面", "• Tool cards, model switching, usage stats, and multilingual UI")
    ]
}

/// The message table.
pub fn message_table() -> (r: Vec<(&'static str, &'static str, &'static str)>)
    ensures
        r@ == messages(),
{
    let r = vec![
        ("app.name", "Bony Build", "Bony Build"),
        ("menu.file", "文件", "File"),
        ("menu.edit", "编辑", "Edit"),
        ("menu.view", "视图", "View"),
        ("menu.help", "帮助", "Help"),
        ("menu.new_task", "新建对话", "New chat"),
        ("menu.open_project", "打开项目…", "Open project…"),
        ("menu.open_project_short", "打开项目", "Open project"),
        ("menu.quit", "退出", "Quit"),
        ("menu.focus_composer", "聚焦输入框", "Focus input"),
        ("menu.clear_draft", "清空草稿", "Clear draft"),
        ("menu.hide_sidebar", "隐藏侧栏", "Hide sidebar"),
        ("menu.show_sidebar", "显示侧栏", "Show sidebar"),
        ("menu.hide_right", "隐藏右侧栏", "Hide right panel"),
        ("menu.show_right", "显示右侧栏", "Show right panel"),
        ("menu.usage", "使用统计", "Usage"),
        ("menu.plugins", "插件管理", "Plugins"),
        ("menu.about", "关于 Bony Build", "About Bony Build"),
        ("tip.toggle_sidebar", "切换侧栏", "Toggle sidebar"),
        ("tip.back_live", "返回当前会话", "Back to live session"),
        ("tip.forward", "前进", "Forward"),
        ("tip.hide_right", "隐藏右侧栏", "Hide right panel"),
        ("tip.show_right", "显示右侧栏", "Show right panel"),
        ("nav.chat", "聊天", "Chat"),
        ("nav.unity", "Unity 控制", "Unity control"),
        ("nav.scheduled", "已安排", "Scheduled"),
        ("nav.plugins", "插件", "Plugins"),
        ("nav.sites", "站点", "Sites"),
        ("nav.prs", "拉取请求", "Pull requests"),
        ("nav.new_task", "新建对话", "New chat"),
        ("sidebar.filter_tasks", "筛选任务…", "Filter tasks…"),
        ("sidebar.by_project", "项目", "Projects"),
        ("sidebar.no_chats", "暂无对话", "No conversations"),
        ("sidebar.no_history", "还没有对话记录", "No conversations yet"),
        ("sidebar.no_match", "没有匹配的对话", "No matching conversations"),
        ("sidebar.switch_project", "切换到此项目", "Switch to project"),
        ("sidebar.remove_from_list", "从列表移除", "Remove from list"),
        ("sidebar.search", "搜索任务", "Search tasks"),
        ("empty.prompt", "接下来做什么？", "What's next?"),
        ("empty.login", "请先登录或配置 API Key", "Sign in or configure an API key"),
        ("empty.recent", "最近对话", "Recent chats"),
        ("empty.expand_more", "展开更多", "Show more"),
        ("empty.collapse", "收起", "Show less"),
        ("empty.no_recent", "还没有最近对话", "No recent chats yet"),
        ("empty.delete_chat", "删除对话", "Delete chat"),
        ("composer.hint", "随便问…", "Do anything"),
        ("composer.hint_login", "请先登录或配置 API Key…", "Sign in or configure an API key…"),
        ("composer.hint_unity", "描述要对编辑器做的事…", "Describe what to do in the editor…"),
        ("composer.hint_connecting", "正在连接…", "Connecting…"),
        ("composer.hint_history", "要求后续变更（将回到当前会话）…", "Request changes (returns to live session)…"),
        ("composer.send", "发送", "Send"),
        ("composer.stop", "停止", "Stop"),
        ("composer.force_stop", "强制停止", "Force stop"),
        ("composer.send_hint", "发送 · Enter", "Send · Enter"),
        ("composer.need_login", "请先登录或配置 API Key", "Sign in or configure an API key first"),
        ("composer.busy", "正在处理上一轮，请稍候或点停止", "Busy — wait or stop the current turn"),
        ("composer.connecting", "正在连接 agent，连上后即可发送", "Connecting to agent — send when ready"),
        ("composer.empty", "先输入消息，或用 + 添加文件", "Type a message, or use + to attach files"),
        ("composer.cant_send", "暂时无法发送", "Cannot send right now"),
        ("composer.plus_open", "关闭菜单", "Close menu"),
        ("composer.plus_closed", "添加文件或插件", "Add files or plugins"),
        ("composer.processing", "处理中…", "Working…"),
        ("composer.readonly_history", "只读历史 · 发送新消息将回到当前会话", "Read-only history · Sending returns to the live session"),
        ("flow.thought", "思考", "Thinking"),
        ("flow.plan", "计划", "Plan"),
        ("flow.tool", "工具", "Tool"),
        ("flow.plan_pending", "待办", "Pending"),
        ("flow.plan_running", "进行中", "In progress"),
        ("flow.plan_done", "完成", "Done"),
        ("flow.plan_steps", "{} 步", "{} steps"),
        ("plus.add_file", "添加文件", "Add Files"),
        ("plus.add_file_sub", "加入当前对话上下文", "Attach to this conversation"),
        ("plus.menu_title", "添加到对话", "Add to Chat"),
        ("plus.section_plugins", "插件", "Plugins"),
        ("plus.unity", "Unity 控制", "Unity Control"),
        ("plus.unity_on", "此对话已启用", "On for this chat"),
        ("plus.unity_off", "本地 CLI · 不经 Agent", "Local CLI · not via Agent"),
        ("plus.unity_disabled", "去插件页启用", "Enable in Plugins"),
        ("plus.openmontage", "OpenMontage", "OpenMontage"),
        ("plus.openmontage_on", "Skill 已启用", "Skill enabled"),
        ("plus.openmontage_off", "视频管线 · Agent Skill", "Video pipelines · Agent skill"),
        ("plus.openmontage_setup", "需要先安装并启用", "Install & enable first"),
        ("plus.bevy", "Bevy 游戏引擎", "Bevy Engine"),
        ("plus.bevy_on", "Skill 已启用", "Skill enabled"),
        ("plus.bevy_off", "Rust ECS · Agent Skill", "Rust ECS · Agent skill"),
        ("plus.bevy_setup", "需要先创建/选择项目", "Create or pick a project first"),
        ("plus.status_on", "开", "On"),
        ("plus.status_off", "关", "Off"),
        ("plus.status_setup", "设置", "Setup"),
        ("plus.manage", "管理插件…", "Manage Plugins…"),
        ("plus.manage_sub", "安装、配置与文档", "Install, configure, and docs"),
        ("plus.chip_unity_tip", "此对话使用 Unity CLI；点 × 取消", "Unity CLI for this chat · click × to leave"),
        ("plus.chip_om_tip", "OpenMontage Skill 已启用；点 × 关闭", "OpenMontage skill on · click × to disable"),
        ("plus.chip_bevy_tip", "Bevy Skill 已启用；点 × 关闭", "Bevy skill on · click × to disable"),
        ("plus.chip_project_tip", "点击切换项目", "Click to switch project"),
        ("plus.clear_files", "清除文件", "Clear files"),
        ("user.usage", "使用统计", "Usage"),
        ("user.edit_config", "编辑 config.toml", "Edit config.toml"),
        ("user.language", "语言", "Language"),
        ("user.full_control", "完全控制", "Full Control"),
        ("user.full_control_tip", "开启后自动批准工具执行（含终端 / 写文件），可随时关闭", "Auto-approve tool runs (shell, file writes). Turn off anytime."),
        ("user.login", "登录", "Sign in"),
        ("user.relogin", "重新登录", "Sign in again"),
        ("user.open_failed", "无法打开配置", "Could not open config"),
        ("user.local_account", "本机账号", "Local account"),
        ("user.signed_out", "未登录", "Not signed in"),
        ("user.settings_section", "设置", "Settings"),
        ("perm.title", "需要批准", "Approval needed"),
        ("perm.blurb", "助手想执行需要你确认的工具。", "The assistant wants to run a tool that needs your OK."),
        ("perm.full_control", "完全控制（以后不再问）", "Full Control (don't ask again)"),
        ("panel.details", "详情", "Details"),
        ("panel.session", "会话", "Session"),
        ("panel.cwd", "工作目录", "Working directory"),
        ("panel.model", "模型", "Model"),
        ("panel.token", "Token", "Token"),
        ("panel.open_usage", "打开使用统计", "Open usage"),
        ("panel.back_chat", "回到聊天", "Back to chat"),
        ("plugins.title", "插件", "Plugins"),
        ("plugins.blurb", "配置本地扩展。对话输入框点「+」即可挂上或拿掉。", "Configure local extensions. Use + in chat to attach or remove them."),
        ("plugins.tab_plugins", "插件", "Plugins"),
        ("plugins.tab_skills", "Skills", "Skills"),
        ("plugins.skills_title", "Skills", "Skills"),
        ("plugins.skills_blurb", "把能力说明（SKILL.md）挂到对话里，让代理按规范工作。", "Attach SKILL.md playbooks so the agent follows project conventions."),
        ("plugins.search", "搜索…", "Search…"),
        ("plugins.search_skills", "搜索…", "Search…"),
        ("plugins.installed", "已安装", "Installed"),
        ("plugins.featured", "精选", "Featured"),
        ("plugins.cat_gamedev", "游戏开发", "Game Dev"),
        ("plugins.cat_video", "视频", "Video"),
        ("plugins.install", "安装", "Install"),
        ("plugins.configure", "配置", "Configure"),
        ("plugins.refresh", "刷新", "Refresh"),
        ("plugins.no_results", "没有匹配的结果", "No matching results"),
        ("plugins.none_installed", "尚未安装", "Nothing installed yet"),
        ("plugins.back_store", "← 返回商店", "← Back to store"),
        ("plugins.skill_om_title", "OpenMontage Skill", "OpenMontage Skill"),
        ("plugins.skill_om_blurb", "视频流水线导演说明，写入对话可用的 SKILL.md", "Stage-director playbook for video pipelines via SKILL.md"),
        ("plugins.skill_bevy_title", "Bevy Skill", "Bevy Skill"),
        ("plugins.skill_bevy_blurb", "Bevy ECS 编码规范与项目路径，供对话自动引用", "Bevy ECS conventions and project path for chat"),
        ("plugins.skill_path", "SKILL.md", "SKILL.md"),
        ("chip.pick_project", "选择项目", "Choose project"),
        ("chip.pick_project_tip", "新建对话尚未绑定项目，点击选择", "This chat has no project yet — click to choose one"),
        ("chip.switch_project_tip", "点击切换项目", "Click to switch project"),
        ("vcs.working_copy", "工作副本", "Working copy"),
        ("vcs.branch", "分支", "Branch"),
        ("vcs.session_branch", "会话分支", "Session branch"),
        ("vcs.refresh", "刷新", "Refresh"),
        ("vcs.commit", "描述并提交", "Describe & commit"),
        ("vcs.commit_title", "描述变更", "Describe change"),
        ("vcs.commit_hint", "简要说明这次改了什么…", "Briefly describe this change…"),
        ("vcs.commit_need_message", "先填写上方的提交说明", "Enter a commit message above first"),
        ("vcs.restore", "还原", "Restore"),
        ("vcs.restore_confirm_title", "确认还原", "Confirm restore"),
        ("vcs.restore_confirm_body", "将丢弃该文件的本地修改（含暂存区）：", "Discard local edits to this file (including the index):"),
        ("vcs.empty_changes", "工作副本干净，没有未提交变更。", "Working copy is clean."),
        ("vcs.no_repo", "当前工作目录不是 Git 仓库，版本面板不可用。", "This working directory is not a Git repository."),
        ("vcs.empty_diff", "暂无 diff", "No diff"),
        ("vcs.history", "最近历史", "Recent history"),
        ("vcs.empty_history", "还没有提交记录。", "No commits yet."),
        ("vcs.commit_detail", "提交详情", "Commit detail"),
        ("vcs.changes_tab", "变更文件", "Changes"),
        ("vcs.pick_file", "选择左侧文件查看 diff", "Select a file to view its diff"),
        ("vcs.commit_open_tip", "点击查看本次提交的变更文件", "Click to view changed files"),
        ("vcs.close_detail", "关闭", "Close"),
        ("vcs.resize_tip", "拖拽左侧边缘可加宽面板", "Drag the left edge to widen this panel"),
        ("plugins.unity_title", "Unity 控制", "Unity control"),
        ("plugins.unity_blurb", "本地 CLI 驱动编辑器：Pipeline、探测、场景操作", "Local CLI for the editor: Pipeline, probe, scene actions"),
        ("plugins.openmontage_title", "OpenMontage", "OpenMontage"),
        ("plugins.openmontage_blurb", "把 12 条视频流水线接入当前对话，不切换工作区", "Attach 12 video pipelines to this chat without switching workspace"),
        ("plugins.openmontage_path", "安装目录", "Install path"),
        ("plugins.openmontage_change", "更改", "Change"),
        ("plugins.openmontage_install", "安装 OpenMontage", "Install OpenMontage"),
        ("plugins.openmontage_reinstall_deps", "重新安装依赖", "Reinstall deps"),
        ("plugins.openmontage_retry", "重试", "Retry"),
        ("plugins.openmontage_backlot", "打开 Backlot", "Open Backlot"),
        ("plugins.openmontage_prereq", "需要本机已安装 Git、Python 3、Node.js", "Requires Git, Python 3, and Node.js on this machine"),
        ("plugins.openmontage_installing_hint", "安装中请勿关闭应用", "Do not close the app while installing"),
        ("plugins.openmontage_enabled_hint", "对话里提到做视频时，会自动走 OpenMontage 流水线。", "Video requests in chat use OpenMontage pipelines automatically."),
        ("plugins.openmontage_status_ready", "依赖就绪", "Deps ready"),
        ("plugins.openmontage_ready_hint", "依赖已装好。视频任务由本机 CLI 跑——应用会注入预检结果，勿用 python -c。", "Deps installed. Video runs via local CLI — app injects preflight; never python -c."),
        ("plugins.openmontage_status_missing", "未安装", "Not installed"),
        ("plugins.openmontage_status_installing", "安装中…", "Installing…"),
        ("plugins.openmontage_status_failed", "安装失败", "Install failed"),
        ("plugins.openmontage_status_deps", "缺依赖", "Missing deps"),
        ("plugins.enable", "启用", "Enable"),
        ("plugins.status", "状态", "Status"),
        ("plugins.chat_hint", "可在聊天输入旁开启 Unity 模式", "Enable Unity mode next to chat input"),
        ("plugins.open_settings", "设置", "Settings"),
        ("plugins.docs", "说明", "Docs"),
        ("plugins.docs_tip", "查看 /unity 指令与常用说法", "View /unity commands and phrases"),
        ("plugins.use_in_chat", "在聊天中使用", "Use in chat"),
        ("plugins.enabled_hint", "启用后可在聊天里用本地 CLI 控制 Unity。", "When enabled, chat can drive Unity via local CLI."),
        ("plugins.project", "项目", "Project"),
        ("plugins.pick_existing", "选择已有", "Pick existing"),
        ("plugins.bevy_title", "Bevy 游戏引擎", "Bevy game engine"),
        ("plugins.bevy_blurb", "直接写改 ECS 代码，cargo run 看效果（无可视化编辑器）", "Edit ECS code directly; cargo run to preview (no visual editor)"),
        ("plugins.bevy_running", "游戏窗口运行中", "Game window running"),
        ("plugins.bevy_no_rust", "本机未检测到 Rust 工具链（cargo / rustc）", "Rust toolchain not found (cargo / rustc)"),
        ("plugins.bevy_install_rust", "一键安装 Rust", "Install Rust"),
        ("plugins.bevy_install_rust_tip", "应用内运行安装命令并自动重新检测", "Runs the install command in-app and re-detects"),
        ("plugins.bevy_copy", "复制", "Copy"),
        ("plugins.bevy_copied", "安装命令已复制", "Install command copied"),
        ("plugins.bevy_no_project", "还没有 Bevy 项目：新建（依赖 phuhao000/bevy fork），或选择已有。", "No Bevy project yet — create one (phuhao000/bevy fork) or pick an existing folder."),
        ("plugins.bevy_project_name", "项目名", "Project name"),
        ("plugins.bevy_create", "创建新项目", "Create project"),
        ("plugins.bevy_check_tip", "快速语法/类型检查，不生成可执行文件", "Quick typecheck without producing a binary"),
        ("plugins.bevy_run", "运行", "Run"),
        ("plugins.bevy_run_tip", "cargo run（首次编译可能需要几分钟）", "cargo run (first build may take a few minutes)"),
        ("plugins.bevy_stop", "停止", "Stop"),
        ("plugins.bevy_detecting", "检测中…", "Detecting…"),
        ("plugins.bevy_enabled_hint", "对话里写/改 Bevy 时会自动带上这个项目的规范。", "Chat about Bevy will include this project's conventions."),
        ("plugins.more", "更多插件", "More plugins"),
        ("plugins.more_blurb", "后续会在这里扩展更多本地能力。", "More local capabilities will appear here."),
        ("plugins.back", "← 插件", "← Plugins"),
        ("common.cancel", "取消", "Cancel"),
        ("common.close", "关闭", "Close"),
        ("common.delete", "删除记录", "Delete record"),
        ("common.demo_mode", "· 演示模式", "· Demo mode"),
        ("task.rename_hint", "任务名称", "Task name"),
        ("task.delete_note", "不会自动删除 worktree 或其中未提交的修改。", "Does not delete the worktree or uncommitted changes."),
        ("task.delete_blocked", "请先切换到其他任务，并等待当前运行或审批结束。", "Switch tasks first and wait for the current run or approval to finish."),
        ("model.none", "暂无可用模型。可在 config.toml 的 [models] 里配置。", "No models available. Configure [models] in config.toml."),
        ("model.edit_config", "编辑 config.toml", "Edit config.toml"),
        ("about.title", "关于 Bony Build", "About Bony Build"),
        ("about.tagline", "原生桌面 AI 编程助手 · 含 Unity CLI 本地控制", "Native desktop AI coding assistant · local Unity CLI"),
        ("about.version", "版本", "Version"),
        ("about.body", "通过 ACP 驱动本地 grok agent，在仓库工作区里对话、改代码、跑工具。", "Drives a local grok agent over ACP to chat, edit, and run tools in your repo."),
        ("about.unity", "Unity 控制（近期）", "Unity control (recent)"),
        ("about.other", "其它能力", "Other capabilities"),
        ("about.footer", "底层复用 SpaceXAI Grok agent；桌面壳为本产品。", "Agent runtime aligns with xAI Grok; the desktop shell is Bony Build."),
        ("about.u1", "• 侧栏「插件 → Unity 控制」：安装 CLI / Pipeline、绑定工程、按钮操作", "• Sidebar Plugins → Unity: install CLI/Pipeline, bind project, actions"),
        ("about.u2", "• 聊天旁 Unity 芯片或 /unity：探测编辑器、Play、跑循环等", "• Unity chip or /unity in chat: probe editor, Play, loops, etc."),
        ("about.u3", "• 走本机 Unity CLI，不经 Agent，避免 pipeline 安装卡死", "• Uses local Unity CLI (not Agent) to avoid hung pipeline installs"),
        ("about.o1", "• 多供应商 BYOK（Qwen / Kimi / 智谱 / OpenAI 兼容等）", "• Multi-provider BYOK (Qwen / Kimi / Zhipu / OpenAI-compatible)"),
        ("about.o2", "• 项目与任务：可选隔离 Git worktree，按任务控制权限", "• Projects & tasks: optional Git worktrees, per-task permissions"),
        ("about.o3", "• 工具卡片、模型切换、使用量统计与多语言界面", "• Tool cards, model switching, usage stats, and multilingual UI")
    ];
    assert(r@ =~= messages());
    r
}

/// Position of the first table entry with this key.
pub open spec fn message_index(table: Seq<(&'static str, &'static str, &'static str)>, key: Seq<char>) -> Option<int>
    decreases table.len(),
{
    if table.len() == 0 {
        None
    } else {
        match message_index(table.drop_last(), key) {
            Some(i) => Some(i),
            None => if table.last().0@ == key {
                Some(table.len() - 1)
            } else {
                None
            },
        }
    }
}

/// The text of a UI message key in a language; an unknown key is shown as is.
pub open spec fn spec_t(lang: Language, key: Seq<char>) -> Seq<char> {
    match message_index(messages(), key) {
        Some(i) => match lang {
            Language::Zh => messages()[i].1@,
            Language::En => messages()[i].2@,
        },
        None => key,
    }
}

pub proof fn lemma_message_index(table: Seq<(&'static str, &'static str, &'static str)>, key: Seq<char>, i: int)
    requires
        0 <= i <= table.len(),
        forall|j: int| 0 <= j < i ==> (#[trigger] table[j]).0@ != key,
        i == table.len() || table[i].0@ == key,
    ensures
        message_index(table, key) == if i < table.len() {
            Some(i)
        } else {
            None::<int>
        },
    decreases table.len(),
{
    if table.len() > 0 {
        if i < table.len() - 1 {
            assert forall|j: int| 0 <= j < i implies (#[trigger] table.drop_last()[j]).0@ != key by {
                assert(table.drop_last()[j] == table[j]);
            }
            lemma_message_index(table.drop_last(), key, i);
        } else {
            assert forall|j: int| 0 <= j < table.len() - 1 implies (#[trigger] table.drop_last()[j]).0@ != key by {
                assert(table.drop_last()[j] == table[j]);
            }
            lemma_message_index(table.drop_last(), key, table.len() - 1);
        }
    }
}

/// The text of a UI message key in a language (the key itself when the
/// table has no such key).
pub fn t<'a>(lang: Language, key: &'a str) -> (r: &'a str)
    ensures
        r@ == spec_t(lang, key@),
{
    let table = message_table();
    let mut i: usize = 0;
    while i < table.len()
        invariant
            i <= table.len(),
            table@ == messages(),
            forall|j: int| 0 <= j < i ==> (#[trigger] table@[j]).0@ != key@,
        decreases table.len() - i,
    {
        if str_eq(table[i].0, key) {
            proof {
                lemma_message_index(messages(), key@, i as int);
            }
            return tr(lang, table[i].1, table[i].2);
        }
        i = i + 1;
    }
    proof {
        lemma_message_index(messages(), key@, table.len() as int);
    }
    key
}

} // verus!
