//! Unity NPC AI runtime scripts, installed into the open project through the
//! editor's C# eval: in Play Mode the player walks up to an NPC, presses E
//! and chats (xAI, with an offline fallback).
use vstd::prelude::*;

use crate::text::{chars_of, extend_chars, string_of};

verus! {

/// C# source for `Assets/Bony/NpcAi/BonyNpcBrain.cs`
pub const SCRIPT_NPC_BRAIN: &'static str = "using UnityEngine;\n\n/// Persona + role for an AI-backed NPC (installed by Bony Build).\npublic class BonyNpcBrain : MonoBehaviour\n{\n    public string displayName = \"NPC\";\n    public string role = \"villager\";\n    [TextArea(3, 8)]\n    public string persona = \"You are a friendly townsperson in a small fantasy village. Stay in character. Keep replies short (1-2 sentences).\";\n    public string model = \"grok-2-latest\";\n}\n";

/// C# source for `Assets/Bony/NpcAi/BonyNpcDialogue.cs`
pub const SCRIPT_NPC_DIALOGUE: &'static str = "using System.Collections;\nusing System.Text;\nusing UnityEngine;\nusing UnityEngine.Networking;\n\n/// Proximity dialogue + xAI chat for NPCs that have BonyNpcBrain.\npublic class BonyNpcDialogue : MonoBehaviour\n{\n    public float interactRange = 3f;\n    public KeyCode interactKey = KeyCode.E;\n\n    BonyNpcBrain brain;\n    Transform player;\n    bool open;\n    bool busy;\n    string input = \"\";\n    string log = \"\";\n\n    [System.Serializable] class ChatMsg { public string role; public string content; }\n    [System.Serializable] class ChatReq { public string model; public ChatMsg[] messages; public float temperature; }\n    [System.Serializable] class ChoiceMsg { public string role; public string content; }\n    [System.Serializable] class Choice { public ChoiceMsg message; }\n    [System.Serializable] class ChatResp { public Choice[] choices; }\n\n    void Awake()\n    {\n        brain = GetComponent<BonyNpcBrain>();\n        if (brain == null) brain = gameObject.AddComponent<BonyNpcBrain>();\n    }\n\n    void Update()\n    {\n        if (player == null)\n        {\n            var p = GameObject.Find(\"Player\");\n            if (p != null) player = p.transform;\n        }\n        if (player == null) return;\n        float d = Vector3.Distance(transform.position, player.position);\n        if (d <= interactRange && Input.GetKeyDown(interactKey))\n        {\n            open = !open;\n            if (open && string.IsNullOrEmpty(log))\n                log = (brain != null ? brain.displayName : name) + \": 你好，有什么事吗？\\n\";\n        }\n        if (open && d > interactRange + 0.75f) open = false;\n    }\n\n    void OnGUI()\n    {\n        if (player != null && !open && Vector3.Distance(transform.position, player.position) <= interactRange)\n        {\n            var cam = Camera.main;\n            if (cam != null)\n            {\n                var sp = cam.WorldToScreenPoint(transform.position + Vector3.up * 2f);\n                if (sp.z > 0f)\n                    GUI.Label(new Rect(sp.x - 48f, Screen.height - sp.y - 18f, 140f, 24f), \"[E] 对话\");\n            }\n        }\n        if (!open) return;\n        float w = 440f, h = 280f;\n        var title = brain != null ? brain.displayName : name;\n        GUI.Window(GetInstanceID(), new Rect((Screen.width - w) * 0.5f, Screen.height - h - 28f, w, h), DrawWindow, title);\n    }\n\n    void DrawWindow(int id)\n    {\n        GUILayout.Label(log, GUILayout.Height(170f));\n        GUILayout.BeginHorizontal();\n        GUI.enabled = !busy;\n        input = GUILayout.TextField(input);\n        if (GUILayout.Button(busy ? \"…\" : \"发送\", GUILayout.Width(64f)))\n            TrySend();\n        GUI.enabled = true;\n        GUILayout.EndHorizontal();\n        if (Event.current.type == EventType.KeyDown && Event.current.keyCode == KeyCode.Return)\n            TrySend();\n        if (GUILayout.Button(\"关闭\")) open = false;\n        GUI.DragWindow();\n    }\n\n    void TrySend()\n    {\n        if (busy || string.IsNullOrWhiteSpace(input)) return;\n        var text = input.Trim();\n        input = \"\";\n        StartCoroutine(AskAi(text));\n    }\n\n    static string ResolveApiKey()\n    {\n        var env = System.Environment.GetEnvironmentVariable(\"XAI_API_KEY\");\n        if (!string.IsNullOrEmpty(env)) return env;\n        if (PlayerPrefs.HasKey(\"BonyXaiApiKey\"))\n            return PlayerPrefs.GetString(\"BonyXaiApiKey\");\n        return \"\";\n    }\n\n    IEnumerator AskAi(string userText)\n    {\n        busy = true;\n        var who = brain != null ? brain.displayName : name;\n        log += \"你: \" + userText + \"\\n\";\n        var key = ResolveApiKey();\n        if (string.IsNullOrEmpty(key))\n        {\n            log += who + \": （未配置 XAI_API_KEY，离线回复）我是本地的\" + (brain != null ? brain.role : \"npc\") + \"，以后配好 Key 就能真正对话了。\\n\";\n            busy = false;\n            yield break;\n        }\n\n        var persona = brain != null ? brain.persona : \"You are a helpful NPC.\";\n        var role = brain != null ? brain.role : \"villager\";\n        var model = brain != null ? brain.model : \"grok-2-latest\";\n        var sys = persona + \" Your in-game role is \" + role + \". Reply in the same language as the player. Keep answers under two short sentences.\";\n        var req = new ChatReq\n        {\n            model = model,\n            temperature = 0.7f,\n            messages = new[]\n            {\n                new ChatMsg { role = \"system\", content = sys },\n                new ChatMsg { role = \"user\", content = userText }\n            }\n        };\n        var json = JsonUtility.ToJson(req);\n        using (var uwr = new UnityWebRequest(\"https://api.x.ai/v1/chat/completions\", \"POST\"))\n        {\n            uwr.uploadHandler = new UploadHandlerRaw(Encoding.UTF8.GetBytes(json));\n            uwr.downloadHandler = new DownloadHandlerBuffer();\n            uwr.SetRequestHeader(\"Content-Type\", \"application/json\");\n            uwr.SetRequestHeader(\"Authorization\", \"Bearer \" + key);\n            yield return uwr.SendWebRequest();\n#if UNITY_2020_2_OR_NEWER\n            bool failed = uwr.result != UnityWebRequest.Result.Success;\n#else\n            bool failed = uwr.isNetworkError || uwr.isHttpError;\n#endif\n            if (failed)\n            {\n                log += who + \": （AI 请求失败）\" + uwr.error + \"\\n\";\n            }\n            else\n            {\n                var resp = JsonUtility.FromJson<ChatResp>(uwr.downloadHandler.text);\n                var reply = (resp != null && resp.choices != null && resp.choices.Length > 0 && resp.choices[0].message != null)\n                    ? resp.choices[0].message.content\n                    : \"\";\n                if (string.IsNullOrEmpty(reply))\n                    log += who + \": （空回复）\\n\";\n                else\n                    log += who + \": \" + reply.Trim() + \"\\n\";\n            }\n        }\n        busy = false;\n    }\n}\n";

/// Attaches brain + dialogue to every scene object whose name starts with `NPC_`.
pub const EVAL_ATTACH_NPC_AI: &'static str = "System.Type FindType(string name) { foreach (var asm in System.AppDomain.CurrentDomain.GetAssemblies()) { var t = asm.GetType(name); if (t != null) return t; } return null; } var brainT = FindType(\"BonyNpcBrain\"); var talkT = FindType(\"BonyNpcDialogue\"); if (brainT == null || talkT == null) return \"NPC AI scripts not compiled yet — wait for reload, then Attach again\"; int n = 0; foreach (var go in UnityEngine.Object.FindObjectsByType<UnityEngine.GameObject>(UnityEngine.FindObjectsSortMode.None)) { if (go == null || !go.name.StartsWith(\"NPC_\")) continue; var brain = go.GetComponent(brainT) ?? UnityEditor.Undo.AddComponent(go, brainT); var talk = go.GetComponent(talkT) ?? UnityEditor.Undo.AddComponent(go, talkT); var display = brainT.GetField(\"displayName\"); var role = brainT.GetField(\"role\"); var persona = brainT.GetField(\"persona\"); if (display != null) display.SetValue(brain, go.name); if (go.name.Contains(\"Vendor\")) { if (role != null) role.SetValue(brain, \"vendor\"); if (persona != null) persona.SetValue(brain, \"You are a cheerful market vendor in a fantasy town. Talk about wares and prices. Keep replies short.\"); if (display != null) display.SetValue(brain, \"商人\"); } else if (go.name.Contains(\"Quest\")) { if (role != null) role.SetValue(brain, \"quest_giver\"); if (persona != null) persona.SetValue(brain, \"You are a quest giver. Hint at simple tasks without inventing complex systems. Keep replies short.\"); if (display != null) display.SetValue(brain, \"任务人\"); } UnityEditor.EditorUtility.SetDirty(go); n++; } UnityEditor.SceneManagement.EditorSceneManager.MarkSceneDirty(UnityEngine.SceneManagement.SceneManager.GetActiveScene()); return \"attached NPC AI to \" + n + \" objects\";";

/// The fixed text of the install snippet, around the two escaped scripts.
pub const EVAL_INSTALL_0: &'static str = "var root = System.IO.Path.Combine(UnityEngine.Application.dataPath, \"Bony\", \"NpcAi\"); if (!System.IO.Directory.Exists(root)) System.IO.Directory.CreateDirectory(root); System.IO.File.WriteAllText(System.IO.Path.Combine(root, \"BonyNpcBrain.cs\"), \"";
pub const EVAL_INSTALL_1: &'static str = "\"); System.IO.File.WriteAllText(System.IO.Path.Combine(root, \"BonyNpcDialogue.cs\"), \"";
pub const EVAL_INSTALL_2: &'static str = "\"); UnityEditor.AssetDatabase.Refresh(); return \"installed Assets/Bony/NpcAi (BonyNpcBrain + BonyNpcDialogue)\";";

/// The C# literal text of one character: backslash and quote escaped,
/// carriage returns dropped, newlines written as `\n`.
pub open spec fn csharp_escape_char(c: char) -> Seq<char> {
    if c == '\\' {
        seq!['\\', '\\']
    } else if c == '"' {
        seq!['\\', '"']
    } else if c == '\r' {
        Seq::empty()
    } else if c == '\n' {
        seq!['\\', 'n']
    } else {
        seq![c]
    }
}

/// Text made fit to stand between the quotes of a C# string literal.
pub open spec fn spec_csharp_escape(s: Seq<char>) -> Seq<char>
    decreases s.len(),
{
    if s.len() == 0 {
        Seq::empty()
    } else {
        spec_csharp_escape(s.drop_last()) + csharp_escape_char(s.last())
    }
}

fn csharp_escape(raw: &str) -> (r: Vec<char>)
    ensures
        r@ == spec_csharp_escape(raw@),
{
    let v = chars_of(raw);
    let mut out: Vec<char> = Vec::new();
    let mut i: usize = 0;
    while i < v.len()
        invariant
            i <= v.len(),
            v@ == raw@,
            out@ == spec_csharp_escape(raw@.subrange(0, i as int)),
        decreases v.len() - i,
    {
        proof {
            assert(raw@.subrange(0, i + 1).drop_last() =~= raw@.subrange(0, i as int));
        }
        let c = v[i];
        if c == '\\' {
            out.push('\\');
            out.push('\\');
        } else if c == '"' {
            out.push('\\');
            out.push('"');
        } else if c == '\r' {
        } else if c == '\n' {
            out.push('\\');
            out.push('n');
        } else {
            out.push(c);
        }
        i = i + 1;
        proof {
            let p = raw@.subrange(0, i as int);
            assert(p.last() == c);
            assert(out@ =~= spec_csharp_escape(p));
        }
    }
    assert(raw@.subrange(0, v.len() as int) =~= raw@);
    out
}

pub open spec fn spec_eval_install() -> Seq<char> {
    EVAL_INSTALL_0@ + spec_csharp_escape(SCRIPT_NPC_BRAIN@) + EVAL_INSTALL_1@ + spec_csharp_escape(
        SCRIPT_NPC_DIALOGUE@,
    ) + EVAL_INSTALL_2@
}

/// The eval snippet that writes both NPC AI scripts under
/// `Assets/Bony/NpcAi/` and refreshes the AssetDatabase.
pub fn eval_install_npc_ai_scripts() -> (r: String)
    ensures
        r@ == spec_eval_install(),
{
    let brain = csharp_escape(SCRIPT_NPC_BRAIN);
    let dialogue = csharp_escape(SCRIPT_NPC_DIALOGUE);
    let mut v = chars_of(EVAL_INSTALL_0);
    crate::text::extend_vec(&mut v, &brain);
    extend_chars(&mut v, EVAL_INSTALL_1);
    crate::text::extend_vec(&mut v, &dialogue);
    extend_chars(&mut v, EVAL_INSTALL_2);
    string_of(&v)
}

/// Escaped text fits on one line: it holds no line feed and no carriage
/// return, so the scripts can stand inside a one-line eval snippet.
pub proof fn law_csharp_escape_one_line(s: Seq<char>)
    ensures
        forall|i: int|
            0 <= i < spec_csharp_escape(s).len() ==> #[trigger] spec_csharp_escape(s)[i] != '\n'
                && spec_csharp_escape(s)[i] != '\r',
    decreases s.len(),
{
    if s.len() > 0 {
        law_csharp_escape_one_line(s.drop_last());
        let a = spec_csharp_escape(s.drop_last());
        let b = csharp_escape_char(s.last());
        let r = spec_csharp_escape(s);
        assert(r == a + b);
        assert forall|i: int| 0 <= i < r.len() implies #[trigger] r[i] != '\n' && r[i] != '\r' by {
            if i < a.len() {
                assert(r[i] == a[i]);
            } else {
                assert(r[i] == b[i - a.len()]);
            }
        }
    }
}

} // verus!
