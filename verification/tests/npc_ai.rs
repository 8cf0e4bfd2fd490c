use bony_build::npc_ai::{eval_install_npc_ai_scripts, EVAL_ATTACH_NPC_AI, SCRIPT_NPC_BRAIN};

#[test]
fn install_snippet_embeds_escaped_scripts() {
    let s = eval_install_npc_ai_scripts();
    assert!(s.starts_with("var root = System.IO.Path.Combine"));
    assert!(s.contains("BonyNpcBrain.cs"));
    assert!(s.contains("public string displayName = \\\"NPC\\\";"));
    assert!(!s.contains('\n'));
    assert!(!s.contains('\r'));
    assert!(s.ends_with("return \"installed Assets/Bony/NpcAi (BonyNpcBrain + BonyNpcDialogue)\";"));
    assert!(SCRIPT_NPC_BRAIN.contains("class BonyNpcBrain"));
    assert!(EVAL_ATTACH_NPC_AI.contains("NPC_"));
}
