//! Note storage, compute half: the contents a fresh note starts with.
//! Reading and writing the backing file is the caller's concern.

use vstd::prelude::*;

verus! {

pub struct StorageService;

impl StorageService {
    /// View of the welcome note a fresh installation starts with.
    pub open spec fn spec_default_note() -> Seq<char> {
        "<h1>Welcome to What The Note!</h1><p>A minimal, always-accessible sticky note for macOS.</p><h2>Quick Start</h2><ul><li><p><strong>Show/Hide:</strong> Use keyboard shortcut (\u{2325}\u{2318}N) or hover your mouse in the top-right corner</p></li><li><p><strong>Formatting:</strong> Click the text icon in the top-left to reveal styling options</p></li><li><p><strong>Settings:</strong> Click the gear icon to customize behavior and shortcuts</p></li></ul><h2>Features</h2><ul data-type=\"taskList\"><li data-checked=\"false\"><label><input type=\"checkbox\"></label><div><p>Auto-save - your notes are saved instantly</p></div></li><li data-checked=\"false\"><label><input type=\"checkbox\"></label><div><p>Rich formatting - bold, italic, lists, headings, and more</p></div></li><li data-checked=\"false\"><label><input type=\"checkbox\"></label><div><p>Drag to reposition, resize from edges</p></div></li><li data-checked=\"false\"><label><input type=\"checkbox\"></label><div><p>Click away to hide (customizable in settings)</p></div></li><li data-checked=\"false\"><label><input type=\"checkbox\"></label><div><p>Adjustable text size in preferences</p></div></li></ul><p><em>Delete this text and start writing your notes!</em></p>"@
    }

    /// The welcome note served when no note file exists yet.
    pub fn default_note() -> (r: String)
        ensures
            r@ == Self::spec_default_note(),
    {
        String::from_str(
            "<h1>Welcome to What The Note!</h1><p>A minimal, always-accessible sticky note for macOS.</p><h2>Quick Start</h2><ul><li><p><strong>Show/Hide:</strong> Use keyboard shortcut (\u{2325}\u{2318}N) or hover your mouse in the top-right corner</p></li><li><p><strong>Formatting:</strong> Click the text icon in the top-left to reveal styling options</p></li><li><p><strong>Settings:</strong> Click the gear icon to customize behavior and shortcuts</p></li></ul><h2>Features</h2><ul data-type=\"taskList\"><li data-checked=\"false\"><label><input type=\"checkbox\"></label><div><p>Auto-save - your notes are saved instantly</p></div></li><li data-checked=\"false\"><label><input type=\"checkbox\"></label><div><p>Rich formatting - bold, italic, lists, headings, and more</p></div></li><li data-checked=\"false\"><label><input type=\"checkbox\"></label><div><p>Drag to reposition, resize from edges</p></div></li><li data-checked=\"false\"><label><input type=\"checkbox\"></label><div><p>Click away to hide (customizable in settings)</p></div></li><li data-checked=\"false\"><label><input type=\"checkbox\"></label><div><p>Adjustable text size in preferences</p></div></li></ul><p><em>Delete this text and start writing your notes!</em></p>",
        )
    }
}

} // verus!
